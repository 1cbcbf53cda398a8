use tachiyomi_backup_to_anilist::text::{decimal_string, parse_unsigned, str_equals};

#[test]
fn parses_like_std() {
    let inputs = ["0", "42", "+7", "", "+", "-1", "1a", " 1", "00012", "4294967295", "4294967296", "18446744073709551615", "18446744073709551616", "++1", "\u{663}"];
    for s in inputs {
        assert_eq!(parse_unsigned(s, u32::MAX as u64), s.parse::<u32>().ok().map(u64::from), "u32 {s:?}");
        assert_eq!(parse_unsigned(s, u64::MAX), s.parse::<u64>().ok(), "u64 {s:?}");
    }
}

#[test]
fn writes_decimals_like_std() {
    for n in [0u64, 7, 10, 99, 100, 12345, u64::MAX] {
        assert_eq!(decimal_string(n), n.to_string());
    }
}

#[test]
fn string_equality() {
    assert!(str_equals("abc", "abc"));
    assert!(!str_equals("abc", "abd"));
    assert!(!str_equals("abc", "ab"));
    assert!(str_equals("", ""));
}

#[test]
fn decimal_text_reads_back() {
    for n in [0u64, 9, 10, 4_294_967_295, u64::MAX] {
        assert_eq!(parse_unsigned(&decimal_string(n), u64::MAX), Some(n));
    }
    assert_eq!(parse_unsigned(&decimal_string(4_294_967_296), u32::MAX as u64), None);
}
