use sharesight_prices::dates::{is_valid_date_str, parse_date};
use sharesight_prices::numbers::{parse_u32, u32_to_string};
use sharesight_prices::pricing::is_number_str;

#[test]
fn accepts_well_formed_dates() {
    assert_eq!(parse_date("2022-01-01"), Some((2022, 1, 1)));
    assert_eq!(parse_date("1999-12-31"), Some((1999, 12, 31)));
    assert_eq!(parse_date("2020-02-29"), Some((2020, 2, 29)));
    assert_eq!(parse_date("2000-02-29"), Some((2000, 2, 29)));
}

#[test]
fn rejects_malformed_dates() {
    assert!(!is_valid_date_str("2022-13-40"));
    assert!(!is_valid_date_str("01-01-2022"));
    assert!(!is_valid_date_str(""));
    assert!(!is_valid_date_str("2022-1-1"));
    assert!(!is_valid_date_str("2022/01/01"));
    assert!(!is_valid_date_str("2022-01-01T00:00:00"));
    assert!(!is_valid_date_str("2022-00-10"));
    assert!(!is_valid_date_str("2022-04-31"));
}

#[test]
fn rejects_impossible_leap_days() {
    assert!(!is_valid_date_str("2021-02-29"));
    assert!(!is_valid_date_str("1900-02-29"));
    assert!(is_valid_date_str("1904-02-29"));
}

#[test]
fn accepts_number_literals() {
    assert!(is_number_str("100.0"));
    assert!(is_number_str("0"));
    assert!(is_number_str("398.2687"));
    assert!(is_number_str("-12.5"));
    assert!(is_number_str("1e3"));
    assert!(is_number_str("2.5E-4"));
    assert!(is_number_str("7e+2"));
}

#[test]
fn rejects_non_numbers() {
    assert!(!is_number_str("abc"));
    assert!(!is_number_str(""));
    assert!(!is_number_str("-"));
    assert!(!is_number_str("1."));
    assert!(!is_number_str(".5"));
    assert!(!is_number_str("1.2.3"));
    assert!(!is_number_str("1e"));
    assert!(!is_number_str("1e+"));
    assert!(!is_number_str("10 "));
    assert!(!is_number_str("0x10"));
}

#[test]
fn writes_decimals() {
    assert_eq!(u32_to_string(0), "0");
    assert_eq!(u32_to_string(42), "42");
    assert_eq!(u32_to_string(4294967295), "4294967295");
}

#[test]
fn reads_decimals() {
    assert_eq!(parse_u32("0"), Some(0));
    assert_eq!(parse_u32("42"), Some(42));
    assert_eq!(parse_u32("4294967295"), Some(4294967295));
    assert_eq!(parse_u32("4294967296"), None);
    assert_eq!(parse_u32(""), None);
    assert_eq!(parse_u32("12a"), None);
    assert_eq!(parse_u32("-1"), None);
}
