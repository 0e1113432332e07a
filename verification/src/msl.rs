//! The raw-image service of the Mars Science Laboratory.

pub mod metadata;
pub mod remote;
