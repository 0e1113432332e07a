//! The errors that the library reports.

use vstd::prelude::*;

verus! {

/// Why an operation of this library failed.
#[derive(Debug, Copy, Clone, PartialEq, Eq, Structural)]
pub enum Error {
    /// A pixel handed to the forward transform is not an 8-bit companded value.
    InvalidRawValue,
    /// A pixel coordinate lies outside the buffer.
    InvalidPixelCoordinates,
    /// The requested dimensions do not match the samples, or their product
    /// does not fit the machine's address range.
    InvalidDimensions,
}

} // verus!
