use journal_viewer::text::{parse_clicks, parse_u64, str_contains, str_eq, to_lowercase, u64_to_string};

#[test]
fn clicks() {
    assert_eq!(parse_clicks("100\n").unwrap(), 100);
}

#[test]
fn clicks_trims_surrounding_whitespace() {
    assert_eq!(parse_clicks("  250\t\r\n"), Some(250));
    assert_eq!(parse_clicks("\n\n"), None);
    assert_eq!(parse_clicks("12 34"), None);
}

#[test]
fn parse_u64_reads_decimal_strings() {
    assert_eq!(parse_u64("0"), Some(0));
    assert_eq!(parse_u64("123"), Some(123));
    assert_eq!(parse_u64("1700000000000000"), Some(1700000000000000));
    assert_eq!(parse_u64("18446744073709551615"), Some(u64::MAX));
}

#[test]
fn parse_u64_rejects_everything_else() {
    assert_eq!(parse_u64(""), None);
    assert_eq!(parse_u64("abc"), None);
    assert_eq!(parse_u64("12a"), None);
    assert_eq!(parse_u64("-5"), None);
    // one past the largest value that fits
    assert_eq!(parse_u64("18446744073709551616"), None);
}

#[test]
fn u64_to_string_renders_decimal() {
    assert_eq!(u64_to_string(0), "0");
    assert_eq!(u64_to_string(7), "7");
    assert_eq!(u64_to_string(1234), "1234");
    assert_eq!(u64_to_string(u64::MAX), "18446744073709551615");
}

#[test]
fn decimal_round_trip() {
    for n in [0u64, 1, 9, 10, 99, 100, 4096, 1700000000000000] {
        assert_eq!(parse_u64(u64_to_string(n).as_str()), Some(n));
    }
}

#[test]
fn str_eq_compares_characters() {
    assert!(str_eq("", ""));
    assert!(str_eq("abc", "abc"));
    assert!(!str_eq("abc", "abd"));
    assert!(!str_eq("abc", "ab"));
}

#[test]
fn str_contains_finds_substrings() {
    assert!(str_contains("connection timeout reached", "timeout"));
    assert!(str_contains("abc", ""));
    assert!(str_contains("abc", "abc"));
    assert!(!str_contains("abc", "abcd"));
    assert!(!str_contains("hello", "world"));
}

#[test]
fn to_lowercase_folds_case() {
    assert_eq!(to_lowercase("TimeOut"), "timeout");
    assert_eq!(to_lowercase(""), "");
    assert_eq!(to_lowercase("already lower"), "already lower");
}
