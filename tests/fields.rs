use penzd::{is_float_literal, parse_point_id, text_equals};

#[test]
fn point_id_decimal() {
    assert_eq!(parse_point_id("1"), Some(1));
    assert_eq!(parse_point_id("0"), Some(0));
    assert_eq!(parse_point_id("007"), Some(7));
    assert_eq!(parse_point_id("+42"), Some(42));
    assert_eq!(parse_point_id("65535"), Some(65535));
}

#[test]
fn point_id_hexadecimal() {
    assert_eq!(parse_point_id("0x1F"), Some(31));
    assert_eq!(parse_point_id("0xffff"), Some(65535));
    assert_eq!(parse_point_id("0x"), None);
    assert_eq!(parse_point_id("0x10000"), None);
}

#[test]
fn point_id_rejected() {
    assert_eq!(parse_point_id(""), None);
    assert_eq!(parse_point_id("+"), None);
    assert_eq!(parse_point_id("-1"), None);
    assert_eq!(parse_point_id("65536"), None);
    assert_eq!(parse_point_id("1.5"), None);
    assert_eq!(parse_point_id(" 1"), None);
    assert_eq!(parse_point_id("abc"), None);
    assert_eq!(parse_point_id("1F"), None);
}

#[test]
fn point_id_agrees_with_std() {
    for s in ["0", "1", "12345", "65535", "65536", "+9", "-0", "", "x1", "99999999999"] {
        assert_eq!(parse_point_id(s), s.parse::<u16>().ok(), "{}", s);
    }
}

#[test]
fn float_text_accepted() {
    for s in [
        "151.2093", "-33.8688", "10.5", "0", "1.", ".5", "+3", "1e5", "1E-3", "2.5e+10", "inf",
        "-Infinity", "NaN", "INF", "+nan",
    ] {
        assert!(is_float_literal(s), "{}", s);
    }
}

#[test]
fn float_text_rejected() {
    for s in [
        "", ".", "-", "abc", "1.2.3", "1e", "e5", "1,5", " 1", "1 ", "--1", "1e+", "infinit",
        "nann", "0x10", ".e1",
    ] {
        assert!(!is_float_literal(s), "{}", s);
    }
}

#[test]
fn float_text_agrees_with_std() {
    for s in [
        "151.2093", "-33.8688", "1.", ".5", "1e5", "1e", "e5", "inf", "infinity", "iNfInItY", "nan",
        "+-1", "1_000", "\u{661}", "12.5e-3", "5.e2", ".e2", "",
    ] {
        assert_eq!(is_float_literal(s), s.parse::<f64>().is_ok(), "{}", s);
    }
}

#[test]
fn texts_compare() {
    assert!(text_equals("latitude", "latitude"));
    assert!(!text_equals("latitude", "Latitude"));
    assert!(!text_equals("lat", "latitude"));
    assert!(text_equals("", ""));
}
