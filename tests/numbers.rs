use planet_editor::number::{parse_u32, u32_text, Decimal};

fn shown(s: &str) -> Option<String> {
    Decimal::parse(s).map(|d| d.to_text())
}

#[test]
fn decimals_display_in_scientific_form() {
    assert_eq!(shown("1500").as_deref(), Some("1.5e3"));
    assert_eq!(shown("1").as_deref(), Some("1e0"));
    assert_eq!(shown("0").as_deref(), Some("0e0"));
    assert_eq!(shown("-0.0").as_deref(), Some("0e0"));
    assert_eq!(shown("-0.0012").as_deref(), Some("-1.2e-3"));
    assert_eq!(shown("+1.5E+2").as_deref(), Some("1.5e2"));
    assert_eq!(shown(".5").as_deref(), Some("5e-1"));
    assert_eq!(shown("5.").as_deref(), Some("5e0"));
    assert_eq!(shown("1e10").as_deref(), Some("1e10"));
    assert_eq!(shown("000120.0300").as_deref(), Some("1.2003e2"));
    assert_eq!(shown("0e99999999999999999999999").as_deref(), Some("0e0"));
}

#[test]
fn malformed_decimals_are_refused() {
    for s in ["", "abc", ".", "e5", "1e", "1e+", "--1", "1.2.3", " 1", "1 ", "1,5", "inf", "NaN"] {
        assert!(Decimal::parse(s).is_none(), "{s:?}");
    }
}

#[test]
fn exponent_range_is_bounded() {
    assert_eq!(shown("1e1000000000").as_deref(), Some("1e1000000000"));
    assert!(Decimal::parse("1e1000000001").is_none());
    assert_eq!(shown("10e999999999").as_deref(), Some("1e1000000000"));
    assert!(Decimal::parse("1e-1000000001").is_none());
    assert!(Decimal::parse("1e99999999999999999999999999999").is_none());
}

#[test]
fn decimal_text_reads_back_the_same() {
    for s in ["3.14159", "-2.5e-7", "6.02214076e23", "100", "0.001"] {
        let d = Decimal::parse(s).unwrap();
        let t = d.to_text();
        let again = Decimal::parse(&t).unwrap();
        assert_eq!(again.to_text(), t);
        assert_eq!(again.digits, d.digits);
        assert_eq!(again.exponent, d.exponent);
        assert_eq!(again.negative, d.negative);
    }
}

#[test]
fn unsigned_integers() {
    assert_eq!(parse_u32("0"), Some(0));
    assert_eq!(parse_u32("+17"), Some(17));
    assert_eq!(parse_u32("007"), Some(7));
    assert_eq!(parse_u32("4294967295"), Some(4294967295));
    assert_eq!(parse_u32("4294967296"), None);
    assert_eq!(parse_u32("-1"), None);
    assert_eq!(parse_u32("+"), None);
    assert_eq!(parse_u32(""), None);
    assert_eq!(u32_text(0), "0");
    assert_eq!(u32_text(90210), "90210");
}
