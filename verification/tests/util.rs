use mars_raw_utils::util::{stringvec, stringvec_b, InstrumentMap};

#[test]
fn stringvec_makes_a_pair() {
    assert_eq!(stringvec("order", "sol desc"), vec![String::from("order"), String::from("sol desc")]);
    assert_eq!(stringvec("", ""), vec![String::new(), String::new()]);
}

#[test]
fn stringvec_b_takes_an_owned_value() {
    assert_eq!(
        stringvec_b("page", String::from("3")),
        vec![String::from("page"), String::from("3")]
    );
}

#[test]
fn instrument_map_finds_a_family() {
    let instruments = InstrumentMap {
        map: vec![("A", vec!["A_LEFT", "A_RIGHT"]), ("B", vec!["B_ONLY"]), ("C", vec![])],
    };
    assert_eq!(instruments.get("A"), Some(&vec!["A_LEFT", "A_RIGHT"]));
    assert_eq!(instruments.get("B"), Some(&vec!["B_ONLY"]));
    assert_eq!(instruments.get("C"), Some(&vec![]));
    assert_eq!(instruments.get("D"), None);
    assert_eq!(instruments.get("a"), None);
    assert_eq!(instruments.get(""), None);
}

#[test]
fn instrument_map_gives_the_first_entry_of_a_family() {
    let instruments = InstrumentMap { map: vec![("A", vec!["FIRST"]), ("A", vec!["SECOND"])] };
    assert_eq!(instruments.get("A"), Some(&vec!["FIRST"]));
}
