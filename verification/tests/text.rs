use nqcc::text::{digit_of, push_chars, push_decimal, push_signed_decimal};

#[test]
fn decimal_of_zero_is_one_digit() {
    let mut out = String::new();
    push_decimal(&mut out, 0);
    assert_eq!(out, "0");
}

#[test]
fn decimal_keeps_what_was_there() {
    let mut out = String::from("n=");
    push_decimal(&mut out, 1234567890);
    assert_eq!(out, "n=1234567890");
}

#[test]
fn decimal_of_the_greatest_value() {
    let mut out = String::new();
    push_decimal(&mut out, u64::MAX);
    assert_eq!(out, "18446744073709551615");
}

#[test]
fn signed_decimal_of_the_least_value() {
    let mut out = String::new();
    push_signed_decimal(&mut out, i64::MIN);
    assert_eq!(out, "-9223372036854775808");
}

#[test]
fn signed_decimal_of_small_values() {
    let mut out = String::new();
    push_signed_decimal(&mut out, -5);
    out.push(' ');
    push_signed_decimal(&mut out, 0);
    out.push(' ');
    push_signed_decimal(&mut out, 42);
    assert_eq!(out, "-5 0 42");
}

#[test]
fn every_digit_has_its_character() {
    let digits: String = (0..10).map(digit_of).collect();
    assert_eq!(digits, "0123456789");
}

#[test]
fn push_chars_appends_a_range() {
    let chars: Vec<char> = "hello world".chars().collect();
    let mut out = String::from(">");
    push_chars(&mut out, &chars, 6, 11);
    assert_eq!(out, ">world");
    push_chars(&mut out, &chars, 3, 3);
    assert_eq!(out, ">world");
}
