use cosmic_monitor::text::{
    contains_str, find_str, lines_of, parse_scaled, parse_u64, str_eq, trim_str, words_of,
};

#[test]
fn unsigned_integers_read_like_from_str() {
    assert_eq!(parse_u64("200000"), Some(200_000));
    assert_eq!(parse_u64("+7"), Some(7));
    assert_eq!(parse_u64("18446744073709551615"), Some(u64::MAX));
    assert_eq!(parse_u64("18446744073709551616"), None);
    assert_eq!(parse_u64(""), None);
    assert_eq!(parse_u64("+"), None);
    assert_eq!(parse_u64("-1"), None);
    assert_eq!(parse_u64("1.5"), None);
}

#[test]
fn decimals_read_scaled_and_truncated() {
    assert_eq!(parse_scaled("12.3456", 3), Some(12_345));
    assert_eq!(parse_scaled("0.5", 3), Some(500));
    assert_eq!(parse_scaled(".5", 2), Some(50));
    assert_eq!(parse_scaled("7.", 2), Some(700));
    assert_eq!(parse_scaled("-3.2", 3), Some(0));
    assert_eq!(parse_scaled("99999999999999999999", 0), Some(u64::MAX));
    assert_eq!(parse_scaled(".", 2), None);
    assert_eq!(parse_scaled("1e3", 2), None);
    assert_eq!(parse_scaled("", 2), None);
}

#[test]
fn trim_drops_unicode_white_space() {
    assert_eq!(trim_str("\t a b \u{3000}\n"), "a b");
    assert_eq!(trim_str("   "), "");
}

#[test]
fn search_finds_first_occurrence() {
    assert_eq!(find_str("abcabc", "ca"), Some(2));
    assert_eq!(find_str("abc", ""), Some(0));
    assert_eq!(find_str("abc", "abcd"), None);
    assert!(contains_str("Type=method_call Member=Notify", "Member=Notify"));
    assert!(str_eq("é", "é"));
    assert!(!str_eq("a", "ab"));
}

#[test]
fn lines_and_words_split_like_std() {
    assert_eq!(lines_of("a\r\nb\n\nc"), vec!["a", "b", "", "c"]);
    assert_eq!(lines_of("a\n"), vec!["a"]);
    assert!(lines_of("").is_empty());
    assert_eq!(words_of("  gpu  45%\tx "), vec!["gpu", "45%", "x"]);
}
