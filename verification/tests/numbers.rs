use minishell::number::{parse_i32, parse_i32_or_zero};

#[test]
fn number_plain() {
    assert_eq!(parse_i32("42"), Some(42));
}

#[test]
fn number_empty_is_none() {
    assert_eq!(parse_i32(""), None);
}

#[test]
fn number_leading_plus() {
    assert_eq!(parse_i32("+7"), Some(7));
}

#[test]
fn number_negative_zero() {
    assert_eq!(parse_i32("-0"), Some(0));
}

#[test]
fn number_leading_zeros() {
    assert_eq!(parse_i32("007"), Some(7));
}

#[test]
fn number_extreme_values() {
    assert_eq!(parse_i32("2147483647"), Some(i32::MAX));
    assert_eq!(parse_i32("-2147483648"), Some(i32::MIN));
}

#[test]
fn number_just_out_of_range() {
    assert_eq!(parse_i32("2147483648"), None);
    assert_eq!(parse_i32("-2147483649"), None);
}

#[test]
fn number_sign_alone_is_none() {
    assert_eq!(parse_i32("-"), None);
    assert_eq!(parse_i32("+"), None);
}

#[test]
fn number_double_sign_is_none() {
    assert_eq!(parse_i32("--1"), None);
}

#[test]
fn number_trailing_garbage_is_none() {
    assert_eq!(parse_i32("1a"), None);
    assert_eq!(parse_i32("1 "), None);
}

#[test]
fn number_or_zero_falls_back() {
    assert_eq!(parse_i32_or_zero("abc"), 0);
    assert_eq!(parse_i32_or_zero(""), 0);
    assert_eq!(parse_i32_or_zero("42"), 42);
}
