use vstd::prelude::*;

verus! {

/// Supported missions.
#[derive(Debug, Copy, Clone, PartialEq, Eq, Structural)]
pub enum Mission {
    MSL,
    MARS2020,
}

/// Supported instruments. `NoInstrument` is the sentinel for "no instrument".
#[derive(Debug, Copy, Clone, PartialEq, Eq, Structural)]
pub enum Instrument {
    MslMAHLI,
    MslMastcamLeft,
    MslMastcamRight,
    M20MastcamZLeft,
    M20MastcamZRight,
    M20NavcamRight,
    M20HeliRte,
    NsytICC,
    NsytIDC,
    NoInstrument,
}

/// Range of the values of an image. It names the range only: the samples
/// themselves are stored alike for every mode.
#[derive(Debug, Copy, Clone, PartialEq, Eq, Structural)]
pub enum ImageMode {
    U8BIT,
    U12BIT,
    U16BIT,
}

impl ImageMode {
    /// Largest value of a mode. For 12-bit data it is the ceiling of the
    /// general-purpose companding table, not 4095.
    pub open spec fn spec_maxvalue(mode: ImageMode) -> u32 {
        match mode {
            ImageMode::U8BIT => 255,
            ImageMode::U12BIT => 2033,
            ImageMode::U16BIT => 65535,
        }
    }

    /// Largest value of `mode`.
    #[verifier::when_used_as_spec(spec_maxvalue)]
    pub fn maxvalue(mode: ImageMode) -> (max: u32)
        ensures
            max == ImageMode::spec_maxvalue(mode),
            mode == ImageMode::U8BIT ==> max == 255,
            mode == ImageMode::U12BIT ==> max == 2033,
            mode == ImageMode::U16BIT ==> max == 65535,
    {
        match mode {
            ImageMode::U8BIT => 255,
            ImageMode::U12BIT => 2033,
            ImageMode::U16BIT => 65535,
        }
    }
}

} // verus!
