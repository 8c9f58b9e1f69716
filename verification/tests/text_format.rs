use fourree::generators::Date;
use fourree::text::{i64_to_decimal, pad_left, str_eq, u64_to_decimal};

#[test]
fn decimal_of_zero() {
    assert_eq!(u64_to_decimal(0), "0");
}

#[test]
fn decimal_of_small_and_large() {
    assert_eq!(u64_to_decimal(7), "7");
    assert_eq!(u64_to_decimal(12345), "12345");
    assert_eq!(u64_to_decimal(u64::MAX), "18446744073709551615");
}

#[test]
fn signed_decimal() {
    assert_eq!(i64_to_decimal(0), "0");
    assert_eq!(i64_to_decimal(42), "42");
    assert_eq!(i64_to_decimal(-7), "-7");
    assert_eq!(i64_to_decimal(i64::MIN), "-9223372036854775808");
    assert_eq!(i64_to_decimal(i64::MAX), "9223372036854775807");
}

#[test]
fn pad_left_shorter_value() {
    assert_eq!(pad_left("42", 6, '0'), "000042");
    assert_eq!(pad_left("abc", 5, ' '), "  abc");
}

#[test]
fn pad_left_exact_and_longer_value() {
    assert_eq!(pad_left("abcd", 4, '*'), "abcd");
    assert_eq!(pad_left("abcdef", 4, '*'), "abcdef");
    assert_eq!(pad_left("", 3, 'x'), "xxx");
}

#[test]
fn string_equality() {
    assert!(str_eq("fixed", "fixed"));
    assert!(!str_eq("fixed", "fixe"));
    assert!(!str_eq("fixed", "fixee"));
    assert!(str_eq("", ""));
}

#[test]
fn date_formatting() {
    let d = Date { year: 1999, month: 2, day: 3 };
    assert_eq!(d.text(), "1999-02-03");
    let d = Date { year: 2016, month: 12, day: 31 };
    assert_eq!(d.text(), "2016-12-31");
}
