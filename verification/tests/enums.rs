use mars_raw_utils::enums::{ImageMode, Instrument, Mission};

#[test]
fn image_mode_ceilings() {
    assert_eq!(ImageMode::maxvalue(ImageMode::U8BIT), 255);
    assert_eq!(ImageMode::maxvalue(ImageMode::U12BIT), 2033);
    assert_eq!(ImageMode::maxvalue(ImageMode::U16BIT), 65535);
}

#[test]
fn enums_compare_by_variant() {
    assert_eq!(Mission::MSL, Mission::MSL);
    assert_ne!(Mission::MSL, Mission::MARS2020);
    assert_eq!(Instrument::NsytICC, Instrument::NsytICC);
    assert_ne!(Instrument::NsytICC, Instrument::NsytIDC);
    assert_ne!(Instrument::NoInstrument, Instrument::MslMAHLI);
    let copy = Instrument::M20HeliRte;
    assert_eq!(copy, Instrument::M20HeliRte);
}
