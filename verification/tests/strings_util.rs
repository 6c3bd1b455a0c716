use osef_me::strings::{
    contains_str, ends_with_str, i64_to_dec, parse_i32, str_eq, u64_to_dec,
};

#[test]
fn decimal_writing() {
    assert_eq!(u64_to_dec(0), "0");
    assert_eq!(u64_to_dec(7), "7");
    assert_eq!(u64_to_dec(12345), "12345");
    assert_eq!(u64_to_dec(u64::MAX), "18446744073709551615");
}

#[test]
fn signed_decimal_writing() {
    assert_eq!(i64_to_dec(0), "0");
    assert_eq!(i64_to_dec(42), "42");
    assert_eq!(i64_to_dec(-5), "-5");
    assert_eq!(i64_to_dec(i64::MIN), "-9223372036854775808");
}

#[test]
fn integer_parsing_follows_std() {
    assert_eq!(parse_i32("0"), Some(0));
    assert_eq!(parse_i32("+42"), Some(42));
    assert_eq!(parse_i32("-42"), Some(-42));
    assert_eq!(parse_i32("2147483647"), Some(i32::MAX));
    assert_eq!(parse_i32("2147483648"), None);
    assert_eq!(parse_i32("-2147483648"), Some(i32::MIN));
    assert_eq!(parse_i32("-2147483649"), None);
    assert_eq!(parse_i32(""), None);
    assert_eq!(parse_i32("+"), None);
    assert_eq!(parse_i32("1 2"), None);
    assert_eq!(parse_i32("007"), Some(7));
}

#[test]
fn substring_search() {
    assert!(contains_str("Process not found", "not"));
    assert!(contains_str("abc", ""));
    assert!(contains_str("abc", "abc"));
    assert!(!contains_str("abc", "abcd"));
    assert!(!contains_str("", "x"));
    assert!(contains_str("aaab", "aab"));
}

#[test]
fn suffix_and_equality() {
    assert!(ends_with_str("song.mp3", ".mp3"));
    assert!(!ends_with_str("song.ogg", ".mp3"));
    assert!(ends_with_str("x", ""));
    assert!(str_eq("fullln", "fullln"));
    assert!(!str_eq("fullln", "noln"));
    assert!(!str_eq("a", "ab"));
}
