use mars_raw_utils::enums::Instrument;
use mars_raw_utils::m20::helirte::{output_file_name, process_file, Step, OUTPUT_FILENAME_APPEND};

#[test]
fn output_file_name_appends_before_the_extension() {
    assert_eq!(OUTPUT_FILENAME_APPEND, "rjcal");
    assert_eq!(output_file_name("HSF_0001.png"), "HSF_0001-rjcal.png");
    assert_eq!(output_file_name("data/HSF_0001.jpg"), "data/HSF_0001-rjcal.png");
    assert_eq!(output_file_name("HSF_0001.PNG"), "HSF_0001-rjcal.png");
}

#[test]
fn output_file_name_without_an_image_extension() {
    assert_eq!(output_file_name("HSF_0001.dat"), "HSF_0001.dat");
    assert_eq!(output_file_name(""), "");
}

#[test]
fn existing_output_is_skipped_when_only_new_is_wanted() {
    assert_eq!(process_file(true, true), Step::Skip);
}

#[test]
fn every_other_file_is_calibrated() {
    let calibrate = Step::Calibrate { instrument: Instrument::M20HeliRte, data_max: 255 };
    assert_eq!(process_file(true, false), calibrate);
    assert_eq!(process_file(false, true), calibrate);
    assert_eq!(process_file(false, false), calibrate);
}
