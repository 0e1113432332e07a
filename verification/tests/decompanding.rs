use mars_raw_utils::decompanding::{
    compand_buffer, decompand_buffer, get_ilt_for_instrument, get_lut_value_from_ilt_value,
    get_max_for_instrument, ILT, ILT_MAX, NSYT_ILT, NSYT_ILT_MAX,
};
use mars_raw_utils::enums::Instrument;
use mars_raw_utils::error::Error;
use mars_raw_utils::imagebuffer::ImageBuffer;

const ALL_INSTRUMENTS: [Instrument; 10] = [
    Instrument::MslMAHLI,
    Instrument::MslMastcamLeft,
    Instrument::MslMastcamRight,
    Instrument::M20MastcamZLeft,
    Instrument::M20MastcamZRight,
    Instrument::M20NavcamRight,
    Instrument::M20HeliRte,
    Instrument::NsytICC,
    Instrument::NsytIDC,
    Instrument::NoInstrument,
];

fn is_nsyt(instrument: Instrument) -> bool {
    instrument == Instrument::NsytICC || instrument == Instrument::NsytIDC
}

#[test]
fn tables_start_at_zero() {
    assert_eq!(ILT[0], 0);
    assert_eq!(NSYT_ILT[0], 0);
}

#[test]
fn tables_never_decrease() {
    for i in 1..256 {
        assert!(ILT[i - 1] <= ILT[i], "general-purpose table at {}", i);
        assert!(NSYT_ILT[i - 1] <= NSYT_ILT[i], "InSight table at {}", i);
    }
}

#[test]
fn tables_end_at_their_ceiling() {
    assert_eq!(ILT[255], 2033);
    assert_eq!(NSYT_ILT[255], 4095);
    assert_eq!(ILT_MAX, 2033);
    assert_eq!(NSYT_ILT_MAX, 4095);
}

#[test]
fn tables_hold_the_published_values() {
    assert_eq!(ILT[1], 2);
    assert_eq!(ILT[10], 9);
    assert_eq!(ILT[128], 542);
    assert_eq!(ILT[254], 2025);
    assert_eq!(NSYT_ILT[4], 0);
    assert_eq!(NSYT_ILT[5], 1);
    assert_eq!(NSYT_ILT[128], 899);
    assert_eq!(NSYT_ILT[254], 4060);
    assert_eq!(ILT.iter().map(|v| *v as u64).sum::<u64>(), 179_316);
    assert_eq!(NSYT_ILT.iter().map(|v| *v as u64).sum::<u64>(), 328_378);
}

#[test]
fn every_instrument_resolves_to_a_table() {
    for instrument in ALL_INSTRUMENTS {
        let ilt = get_ilt_for_instrument(instrument);
        if is_nsyt(instrument) {
            assert_eq!(ilt, NSYT_ILT);
        } else {
            assert_eq!(ilt, ILT);
        }
    }
}

#[test]
fn max_for_instrument_follows_the_table() {
    for instrument in ALL_INSTRUMENTS {
        let expected = if is_nsyt(instrument) { 4095 } else { 2033 };
        assert_eq!(get_max_for_instrument(instrument), expected);
    }
    assert_eq!(get_max_for_instrument(Instrument::NsytICC), 4095);
    assert_eq!(get_max_for_instrument(Instrument::NsytIDC), 4095);
    assert_eq!(get_max_for_instrument(Instrument::NoInstrument), 2033);
    assert_eq!(get_max_for_instrument(Instrument::MslMAHLI), 2033);
}

#[test]
fn decompand_two_by_one() {
    let mut buffer = ImageBuffer::from_vec(vec![10, 255], 2, 1).unwrap();
    assert_eq!(decompand_buffer(&mut buffer, Instrument::NoInstrument), Ok(()));
    assert_eq!(buffer.to_vector(), vec![9, 2033]);
    assert_eq!(buffer.width(), 2);
    assert_eq!(buffer.height(), 1);
}

#[test]
fn decompand_with_the_insight_table() {
    let mut buffer = ImageBuffer::from_vec(vec![0, 4, 5, 10, 128, 255], 3, 2).unwrap();
    assert_eq!(decompand_buffer(&mut buffer, Instrument::NsytIDC), Ok(()));
    assert_eq!(buffer.to_vector(), vec![0, 0, 1, 3, 899, 4095]);
}

#[test]
fn decompand_replaces_every_pixel() {
    let raw: Vec<u32> = (0..256).collect();
    let mut buffer = ImageBuffer::from_vec(raw, 16, 16).unwrap();
    assert_eq!(decompand_buffer(&mut buffer, Instrument::MslMastcamLeft), Ok(()));
    assert_eq!(buffer.to_vector(), ILT.to_vec());
}

#[test]
fn decompand_rejects_256() {
    let mut buffer = ImageBuffer::from_vec(vec![256], 1, 1).unwrap();
    assert_eq!(
        decompand_buffer(&mut buffer, Instrument::NoInstrument),
        Err(Error::InvalidRawValue)
    );
}

#[test]
fn decompand_rejects_any_value_above_255() {
    for bad in [256u32, 257, 1000, 65535, u32::MAX] {
        for instrument in [Instrument::M20MastcamZLeft, Instrument::NsytICC] {
            let mut buffer = ImageBuffer::from_vec(vec![1, 2, 3, bad, 5, 6], 3, 2).unwrap();
            assert_eq!(decompand_buffer(&mut buffer, instrument), Err(Error::InvalidRawValue));
            assert_eq!(buffer.width(), 3);
            assert_eq!(buffer.height(), 2);
        }
    }
}

#[test]
fn decompand_rejects_wherever_the_bad_pixel_is() {
    for position in 0..6 {
        let mut samples = vec![7u32; 6];
        samples[position] = 300;
        let mut buffer = ImageBuffer::from_vec(samples, 2, 3).unwrap();
        assert_eq!(
            decompand_buffer(&mut buffer, Instrument::NoInstrument),
            Err(Error::InvalidRawValue)
        );
        let after = buffer.to_vector();
        for (i, v) in after.iter().enumerate() {
            if i == position {
                assert_eq!(*v, 300);
            } else {
                assert!(*v == 7 || *v == ILT[7]);
            }
        }
    }
}

#[test]
fn decompand_of_an_empty_buffer_succeeds() {
    let mut buffer = ImageBuffer::from_vec(vec![], 0, 0).unwrap();
    assert_eq!(decompand_buffer(&mut buffer, Instrument::NoInstrument), Ok(()));
    assert_eq!(buffer.to_vector(), Vec::<u32>::new());
}

#[test]
fn compand_ceiling_gives_255() {
    let mut buffer = ImageBuffer::from_vec(vec![2033], 1, 1).unwrap();
    compand_buffer(&mut buffer, Instrument::NoInstrument);
    assert_eq!(buffer.to_vector(), vec![255]);
}

#[test]
fn compand_zero_gives_zero() {
    for instrument in ALL_INSTRUMENTS {
        let mut buffer = ImageBuffer::from_vec(vec![0], 1, 1).unwrap();
        compand_buffer(&mut buffer, instrument);
        assert_eq!(buffer.to_vector(), vec![0]);
        assert_eq!(get_lut_value_from_ilt_value(0, instrument), 0);
    }
}

#[test]
fn compand_all_zero_buffer_stays_zero() {
    for instrument in [Instrument::NoInstrument, Instrument::NsytICC] {
        let mut buffer = ImageBuffer::new(5, 4).unwrap();
        compand_buffer(&mut buffer, instrument);
        assert_eq!(buffer.to_vector(), vec![0u32; 20]);
    }
}

#[test]
fn compand_exact_and_bracketed_values() {
    let i = Instrument::NoInstrument;
    // entry 1 is 2: the value 1 lies strictly between entry 0 and entry 1
    assert_eq!(get_lut_value_from_ilt_value(1, i), 1);
    assert_eq!(get_lut_value_from_ilt_value(2, i), 1);
    // entries 2 and 3 are both 3: the lower raw value wins
    assert_eq!(get_lut_value_from_ilt_value(3, i), 2);
    assert_eq!(get_lut_value_from_ilt_value(4, i), 4);
    assert_eq!(get_lut_value_from_ilt_value(5, i), 5);
    assert_eq!(get_lut_value_from_ilt_value(9, i), 10);
    // 13 lies strictly between entry 13 (12) and entry 14 (14)
    assert_eq!(get_lut_value_from_ilt_value(13, i), 14);
    assert_eq!(get_lut_value_from_ilt_value(2026, i), 255);
    assert_eq!(get_lut_value_from_ilt_value(2025, i), 254);
    assert_eq!(get_lut_value_from_ilt_value(2033, i), 255);
}

#[test]
fn compand_above_the_ceiling_gives_zero() {
    assert_eq!(get_lut_value_from_ilt_value(2034, Instrument::NoInstrument), 0);
    assert_eq!(get_lut_value_from_ilt_value(4095, Instrument::NoInstrument), 0);
    assert_eq!(get_lut_value_from_ilt_value(u32::MAX, Instrument::NoInstrument), 0);
    assert_eq!(get_lut_value_from_ilt_value(4095, Instrument::NsytICC), 255);
    assert_eq!(get_lut_value_from_ilt_value(4096, Instrument::NsytICC), 0);
    let mut buffer = ImageBuffer::from_vec(vec![2034, 70000], 1, 2).unwrap();
    compand_buffer(&mut buffer, Instrument::MslMAHLI);
    assert_eq!(buffer.to_vector(), vec![0, 0]);
}

#[test]
fn compand_with_the_insight_table() {
    let i = Instrument::NsytIDC;
    assert_eq!(get_lut_value_from_ilt_value(1, i), 5);
    assert_eq!(get_lut_value_from_ilt_value(2, i), 7);
    assert_eq!(get_lut_value_from_ilt_value(3, i), 9);
    assert_eq!(get_lut_value_from_ilt_value(10, i), 17);
    assert_eq!(get_lut_value_from_ilt_value(2033, i), 186);
    let mut buffer = ImageBuffer::from_vec(vec![0, 1, 899, 4095], 2, 2).unwrap();
    compand_buffer(&mut buffer, i);
    assert_eq!(buffer.to_vector(), vec![0, 5, 128, 255]);
}

#[test]
fn compand_matches_a_plain_scan() {
    for instrument in [Instrument::NoInstrument, Instrument::NsytICC] {
        let ilt = get_ilt_for_instrument(instrument);
        for v in 0u32..4200 {
            let mut expected = 0u32;
            if v != 0 {
                for i in 1..256usize {
                    if v == ilt[i] || (v < ilt[i] && v > ilt[i - 1]) {
                        expected = i as u32;
                        break;
                    }
                }
            }
            assert_eq!(get_lut_value_from_ilt_value(v, instrument), expected, "value {}", v);
        }
    }
}

#[test]
fn round_trip_of_the_general_purpose_table() {
    for raw in 0u32..256 {
        let linear = ILT[raw as usize];
        let back = get_lut_value_from_ilt_value(linear, Instrument::NoInstrument);
        let expected = match raw {
            3 => 2,
            6 => 5,
            r => r,
        };
        assert_eq!(back, expected, "raw value {}", raw);
        assert_eq!(ILT[back as usize], linear);
    }
}

#[test]
fn round_trip_of_the_insight_table() {
    for raw in 0u32..256 {
        let linear = NSYT_ILT[raw as usize];
        let back = get_lut_value_from_ilt_value(linear, Instrument::NsytICC);
        let expected = match raw {
            1..=4 => 0,
            6 => 5,
            8 => 7,
            10 => 9,
            r => r,
        };
        assert_eq!(back, expected, "raw value {}", raw);
        assert_eq!(NSYT_ILT[back as usize], linear);
    }
}

#[test]
fn round_trip_of_a_buffer() {
    let raw: Vec<u32> = (0..256).collect();
    let mut buffer = ImageBuffer::from_vec(raw.clone(), 32, 8).unwrap();
    assert_eq!(decompand_buffer(&mut buffer, Instrument::M20HeliRte), Ok(()));
    compand_buffer(&mut buffer, Instrument::M20HeliRte);
    let back = buffer.to_vector();
    for (r, b) in raw.iter().zip(back.iter()) {
        assert!(*b <= *r && *r - *b <= 1, "raw value {} came back as {}", r, b);
    }
}
