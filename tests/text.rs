use token_auth::config::chars_end_with;
use token_auth::text::{digit_of, push_decimal};
use token_auth::token::{chars_of, parse_decimal};

#[test]
fn decimal_writing() {
    for (n, s) in [(0u64, "0"), (7, "7"), (10, "10"), (1234567890, "1234567890"), (u64::MAX, "18446744073709551615")] {
        let mut out = String::from("x=");
        push_decimal(&mut out, n);
        assert_eq!(out, format!("x={}", s));
    }
}

#[test]
fn digit_characters() {
    for d in 0..10u64 {
        assert_eq!(digit_of(d), char::from_digit(d as u32, 10).unwrap());
    }
}

#[test]
fn decimal_reading() {
    let s = chars_of("ab0123c9223372036854775807x");
    assert_eq!(parse_decimal(&s, 2, 6), Some(123));
    assert_eq!(parse_decimal(&s, 2, 2), None);
    assert_eq!(parse_decimal(&s, 1, 6), None);
    assert_eq!(parse_decimal(&s, 7, 26), Some(i64::MAX));
    let big = chars_of("9223372036854775808");
    assert_eq!(parse_decimal(&big, 0, big.len()), None);
}

#[test]
fn characters_in_order() {
    assert_eq!(chars_of("aé|✓"), vec!['a', 'é', '|', '✓']);
    assert!(chars_of("").is_empty());
}

#[test]
fn suffix_matching() {
    let s = chars_of("app.example.com");
    assert!(chars_end_with(&s, &chars_of("example.com")));
    assert!(chars_end_with(&s, &chars_of("")));
    assert!(chars_end_with(&s, &s));
    assert!(!chars_end_with(&s, &chars_of("example.org")));
    assert!(!chars_end_with(&chars_of("com"), &s));
}

