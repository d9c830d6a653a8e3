use photo_fetch::pages::{parse_page_count, u8_to_decimal};

#[test]
fn parse_accepts_small_counts() {
    assert_eq!(parse_page_count("2"), Some(2));
    assert_eq!(parse_page_count("0"), Some(0));
    assert_eq!(parse_page_count("255"), Some(255));
    assert_eq!(parse_page_count("007"), Some(7));
    assert_eq!(parse_page_count("+7"), Some(7));
}

#[test]
fn parse_rejects_non_numeric_input() {
    assert_eq!(parse_page_count("abc"), None);
    assert_eq!(parse_page_count(""), None);
    assert_eq!(parse_page_count("+"), None);
    assert_eq!(parse_page_count("2x"), None);
    assert_eq!(parse_page_count("2 "), None);
    assert_eq!(parse_page_count("-1"), None);
}

#[test]
fn parse_rejects_counts_over_eight_bits() {
    assert_eq!(parse_page_count("256"), None);
    assert_eq!(parse_page_count("99999"), None);
}

#[test]
fn decimal_rendering_is_exact() {
    assert_eq!(u8_to_decimal(0), "0");
    assert_eq!(u8_to_decimal(2), "2");
    assert_eq!(u8_to_decimal(42), "42");
    assert_eq!(u8_to_decimal(100), "100");
    assert_eq!(u8_to_decimal(255), "255");
}

#[test]
fn decimal_rendering_round_trips() {
    for n in [0u8, 1, 9, 10, 99, 100, 128, 255] {
        assert_eq!(parse_page_count(&u8_to_decimal(n)), Some(n));
    }
}
