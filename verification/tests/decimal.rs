use tgbot::strutil::{contains_substr, i64_to_string, parse_i64, parse_u64, pad2_to_string, str_eq, u64_to_string};

#[test]
fn formats_small_numbers() {
    assert_eq!(u64_to_string(0), "0");
    assert_eq!(u64_to_string(7), "7");
    assert_eq!(u64_to_string(42), "42");
    assert_eq!(u64_to_string(100), "100");
}

#[test]
fn formats_large_numbers() {
    assert_eq!(u64_to_string(u64::MAX), "18446744073709551615");
    assert_eq!(u64_to_string(1_000_000_007), "1000000007");
}

#[test]
fn formats_signed_numbers() {
    assert_eq!(i64_to_string(0), "0");
    assert_eq!(i64_to_string(-1), "-1");
    assert_eq!(i64_to_string(99), "99");
    assert_eq!(i64_to_string(i64::MIN), "-9223372036854775808");
    assert_eq!(i64_to_string(i64::MAX), "9223372036854775807");
}

#[test]
fn pads_two_digits() {
    assert_eq!(pad2_to_string(0), "00");
    assert_eq!(pad2_to_string(7), "07");
    assert_eq!(pad2_to_string(10), "10");
    assert_eq!(pad2_to_string(59), "59");
}

#[test]
fn parses_canonical_unsigned() {
    assert_eq!(parse_u64("0"), Some(0));
    assert_eq!(parse_u64("42"), Some(42));
    assert_eq!(parse_u64("18446744073709551615"), Some(u64::MAX));
}

#[test]
fn rejects_non_canonical_unsigned() {
    assert_eq!(parse_u64(""), None);
    assert_eq!(parse_u64("007"), None);
    assert_eq!(parse_u64("1a"), None);
    assert_eq!(parse_u64("-5"), None);
    assert_eq!(parse_u64("18446744073709551616"), None);
}

#[test]
fn parses_canonical_signed() {
    assert_eq!(parse_i64("0"), Some(0));
    assert_eq!(parse_i64("-1"), Some(-1));
    assert_eq!(parse_i64("7"), Some(7));
    assert_eq!(parse_i64("-9223372036854775808"), Some(i64::MIN));
    assert_eq!(parse_i64("9223372036854775807"), Some(i64::MAX));
}

#[test]
fn rejects_non_canonical_signed() {
    assert_eq!(parse_i64("-0"), None);
    assert_eq!(parse_i64("--3"), None);
    assert_eq!(parse_i64("9223372036854775808"), None);
    assert_eq!(parse_i64("-9223372036854775809"), None);
    assert_eq!(parse_i64(""), None);
    assert_eq!(parse_i64("-"), None);
}

#[test]
fn round_trips_decimal_forms() {
    for v in [0i64, 1, -1, 42, -42, 1000, i64::MIN, i64::MAX] {
        assert_eq!(parse_i64(&i64_to_string(v)), Some(v));
    }
    for v in [0u64, 9, 10, 65535, u64::MAX] {
        assert_eq!(parse_u64(&u64_to_string(v)), Some(v));
    }
}

#[test]
fn string_equality_is_by_characters() {
    assert!(str_eq("abc", "abc"));
    assert!(!str_eq("abc", "abd"));
    assert!(!str_eq("abc", "ab"));
    assert!(str_eq("", ""));
    assert!(str_eq("привет", "привет"));
}

#[test]
fn finds_substrings() {
    assert!(contains_substr("NOGROUP No such consumer group", "NOGROUP"));
    assert!(contains_substr("abc", ""));
    assert!(contains_substr("abc", "abc"));
    assert!(!contains_substr("abc", "abcd"));
    assert!(!contains_substr("BUSY", "BUSYGROUP"));
    assert!(contains_substr("the request was already processed today", "already processed"));
}
