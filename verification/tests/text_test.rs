use stream_download::text::{chars_of, parse_u64, push_decimal, starts_with, str_eq, string_of, suffix_from};

#[test]
fn decimal_formatting() {
    let mut s = String::from("n=");
    push_decimal(&mut s, 0);
    assert_eq!(s, "n=0");
    let mut s = String::new();
    push_decimal(&mut s, 1234567890);
    assert_eq!(s, "1234567890");
    let mut s = String::new();
    push_decimal(&mut s, u64::MAX);
    assert_eq!(s, u64::MAX.to_string());
}

#[test]
fn decimal_parsing() {
    assert_eq!(parse_u64("0"), Some(0));
    assert_eq!(parse_u64("007"), Some(7));
    assert_eq!(parse_u64("+12"), Some(12));
    assert_eq!(parse_u64("+"), None);
    assert_eq!(parse_u64(" 1"), None);
    assert_eq!(parse_u64("99999999999999999999"), None);
    for n in [0u64, 9, 10, 4096, u64::MAX - 1, u64::MAX] {
        assert_eq!(parse_u64(&n.to_string()), Some(n));
    }
}

#[test]
fn string_helpers() {
    assert!(str_eq("abc", "abc"));
    assert!(!str_eq("abc", "abd"));
    assert!(!str_eq("abc", "ab"));
    assert!(starts_with("custom://x", "custom://"));
    assert!(!starts_with("cust", "custom://"));
    assert_eq!(suffix_from("héllo", 2), "llo");
    assert_eq!(chars_of("hé"), vec!['h', 'é']);
    assert_eq!(string_of(&['a', 'é']), "aé");
}

#[test]
fn parse_reads_back_written_decimals() {
    for n in [0u64, 1, 42, 1000, 65535, u64::MAX / 3, u64::MAX] {
        let mut s = String::new();
        push_decimal(&mut s, n);
        assert_eq!(parse_u64(&s), Some(n));
    }
}
