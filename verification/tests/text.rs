use greetinfo::text::{parse_u16, parse_u64, split_str, split_whitespace_str, str_eq, u64_to_string};

#[test]
fn u16_plain_values() {
    assert_eq!(parse_u16("0"), Some(0));
    assert_eq!(parse_u16("1500"), Some(1500));
    assert_eq!(parse_u16("65535"), Some(65535));
    assert_eq!(parse_u16("007"), Some(7));
}

#[test]
fn u16_plus_sign() {
    assert_eq!(parse_u16("+42"), Some(42));
    assert_eq!(parse_u16("+"), None);
    assert_eq!(parse_u16("++1"), None);
}

#[test]
fn u16_rejects() {
    assert_eq!(parse_u16(""), None);
    assert_eq!(parse_u16("65536"), None);
    assert_eq!(parse_u16("999999999999"), None);
    assert_eq!(parse_u16("-1"), None);
    assert_eq!(parse_u16(" 1"), None);
    assert_eq!(parse_u16("1 "), None);
    assert_eq!(parse_u16("1a"), None);
}

#[test]
fn u64_boundaries() {
    assert_eq!(parse_u64("18446744073709551615"), Some(u64::MAX));
    assert_eq!(parse_u64("18446744073709551616"), None);
    assert_eq!(parse_u64("0"), Some(0));
}

#[test]
fn split_keeps_empty_pieces() {
    assert_eq!(split_str("a::b", ':'), vec!["a".to_string(), "".to_string(), "b".to_string()]);
    assert_eq!(split_str("", ':'), vec!["".to_string()]);
    assert_eq!(split_str(":", ':'), vec!["".to_string(), "".to_string()]);
}

#[test]
fn whitespace_split_drops_empty_pieces() {
    assert_eq!(
        split_whitespace_str("  UID_MIN\t 500 \n"),
        vec!["UID_MIN".to_string(), "500".to_string()]
    );
    assert_eq!(split_whitespace_str("   "), Vec::<String>::new());
}

#[test]
fn string_equality_is_exact() {
    assert!(str_eq("Desktop Entry", "Desktop Entry"));
    assert!(!str_eq("Desktop Entry", "desktop entry"));
    assert!(!str_eq("a", "ab"));
}

#[test]
fn decimal_rendering() {
    assert_eq!(u64_to_string(0), "0");
    assert_eq!(u64_to_string(7), "7");
    assert_eq!(u64_to_string(1234567890123456789), "1234567890123456789");
}
