//! Calibration of raw planetary-camera imagery.
//!
//! The heart of the library is `decompanding`: the companding tables of the
//! supported instruments, the choice of a table for an instrument, and the
//! transforms between companded 8-bit pixel values and linear values, on the
//! rasters of `imagebuffer`. Around it stand the decisions of the tools that
//! fetch and calibrate images: which images of a remote listing are listed and
//! what a query sends (`msl::remote`), and what is done with an input file
//! (`m20::helirte`).

pub mod enums;
pub mod error;
pub mod imagebuffer;
pub mod decompanding;
pub mod remotequery;
pub mod text;
pub mod util;
pub mod m20;
pub mod msl;
