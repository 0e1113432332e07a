//! Calibration of the images of the helicopter's return-to-earth camera.

use vstd::prelude::*;
use crate::enums::{ImageMode, Instrument};

verus! {

/// What is appended to the name of an input file to name its calibrated
/// output.
pub const OUTPUT_FILENAME_APPEND: &'static str = "rjcal";

/// The name that `sciimg::util::append_file_name` makes of a file name and of
/// a text to append.
pub uninterp spec fn appended_file_name(input_file: Seq<char>, append: Seq<char>) -> Seq<char>;

/// `sciimg::util::append_file_name`: it puts a hyphen, `append` and the
/// extension `.png` in the place of each image extension that it finds in
/// `input_file`. It reads nothing but its two arguments, so the result is
/// named after them.
#[verifier::external_body]
fn append_file_name(input_file: &str, append: &str) -> (out_file: String)
    ensures
        out_file@ == appended_file_name(input_file@, append@),
{
    sciimg::util::append_file_name(input_file, append)
}

/// The name of the calibrated output of `input_file`.
pub fn output_file_name(input_file: &str) -> (out_file: String)
    ensures
        out_file@ == appended_file_name(input_file@, OUTPUT_FILENAME_APPEND@),
{
    append_file_name(input_file, OUTPUT_FILENAME_APPEND)
}

/// What is to be done with an input file.
#[derive(Debug, Copy, Clone, PartialEq, Eq, Structural)]
pub enum Step {
    /// Nothing: the output is there already and only new files are wanted.
    Skip,
    /// Open the file as an image of `instrument`, flat-field it, stretch the
    /// range up to `data_max` over 16 bits and write the output.
    Calibrate { instrument: Instrument, data_max: u32 },
}

/// The step that calibration takes for an input file.
pub open spec fn step_for(output_exists: bool, only_new: bool) -> Step {
    if output_exists && only_new {
        Step::Skip
    } else {
        Step::Calibrate {
            instrument: Instrument::M20HeliRte,
            data_max: ImageMode::spec_maxvalue(ImageMode::U8BIT),
        }
    }
}

/// Decides what to do with an input file, given whether its output exists
/// already and whether only new files are wanted. The images are 8-bit data
/// and are not decompanded, so the range to stretch ends at 255.
pub fn process_file(output_exists: bool, only_new: bool) -> (step: Step)
    ensures
        step == step_for(output_exists, only_new),
        step is Skip <==> output_exists && only_new,
        step matches Step::Calibrate { instrument, data_max } ==> instrument
            == Instrument::M20HeliRte && data_max == 255,
{
    if output_exists && only_new {
        return Step::Skip;
    }
    Step::Calibrate { instrument: Instrument::M20HeliRte, data_max: ImageMode::maxvalue(ImageMode::U8BIT) }
}

} // verus!
