use dcscrape::text::{
    after_last_slash_of, chars_of, contains, decimal_string, parse_u32, replace_all,
    starts_with, without_layout,
};

#[test]
fn decimal_string_exact_values() {
    assert_eq!(decimal_string(0), "0");
    assert_eq!(decimal_string(7), "7");
    assert_eq!(decimal_string(10), "10");
    assert_eq!(decimal_string(12345), "12345");
    assert_eq!(decimal_string(u32::MAX), "4294967295");
}

#[test]
fn parse_u32_accepts_what_std_accepts() {
    assert_eq!(parse_u32("0"), Some(0));
    assert_eq!(parse_u32("12"), Some(12));
    assert_eq!(parse_u32("+12"), Some(12));
    assert_eq!(parse_u32("007"), Some(7));
    assert_eq!(parse_u32("4294967295"), Some(u32::MAX));
}

#[test]
fn parse_u32_rejects_what_std_rejects() {
    assert_eq!(parse_u32(""), None);
    assert_eq!(parse_u32("+"), None);
    assert_eq!(parse_u32("-1"), None);
    assert_eq!(parse_u32("12a"), None);
    assert_eq!(parse_u32(" 12"), None);
    assert_eq!(parse_u32("4294967296"), None);
    assert_eq!(parse_u32("99999999999999999999"), None);
}

#[test]
fn parse_u32_agrees_with_std() {
    for s in ["", "+", "+0", "1", "42", "-0", "4294967295", "4294967296", "1 ", "٣", "++1"] {
        assert_eq!(parse_u32(s), s.parse::<u32>().ok(), "input {:?}", s);
    }
}

#[test]
fn law_decimal_round_trip_values() {
    for n in [0u32, 1, 9, 10, 99, 100, 65535, 1_000_000, u32::MAX] {
        assert_eq!(parse_u32(&decimal_string(n)), Some(n));
    }
}

#[test]
fn replace_all_left_to_right() {
    assert_eq!(replace_all("12345?page=1", "?page=1", ""), "12345");
    assert_eq!(replace_all("a?page=1b?page=1", "?page=1", ""), "ab");
    assert_eq!(replace_all("aaa", "aa", "b"), "ba");
    assert_eq!(replace_all("조회수 77", "조회수 ", ""), "77");
    assert_eq!(replace_all("none here", "xyz", "!"), "none here");
    assert_eq!(replace_all("", "x", "y"), "");
    assert_eq!(replace_all("abc", "", "-"), "-a-b-c-");
    assert_eq!(replace_all("", "", "-"), "-");
}

#[test]
fn replace_all_agrees_with_std() {
    for (s, f, t) in [("abcabc", "bc", "X"), ("aaaa", "aa", "a"), ("x/y/z", "/", "//"), ("", "a", "b"), ("abc", "", "-"), ("", "", "-"), ("가나", "", "")] {
        assert_eq!(replace_all(s, f, t), s.replace(f, t));
    }
}

#[test]
fn without_layout_removes_line_feeds_and_tabs() {
    assert_eq!(without_layout("a\nb\tc\r\n"), "abc\r");
    assert_eq!(without_layout("\n\t"), "");
    assert_eq!(without_layout("plain"), "plain");
}

#[test]
fn law_stripped_text_has_no_layout() {
    let s = without_layout("\tline one\nline\ttwo\n\n");
    assert!(!s.contains('\n') && !s.contains('\t'));
    assert_eq!(s, "line onelinetwo");
}

#[test]
fn after_last_slash_like_rsplit_once() {
    assert_eq!(after_last_slash_of("a/b/c"), Some("c".to_string()));
    assert_eq!(after_last_slash_of("a/"), Some(String::new()));
    assert_eq!(after_last_slash_of("/gallog/user"), Some("user".to_string()));
    assert_eq!(after_last_slash_of("abc"), None);
    assert_eq!(after_last_slash_of(""), None);
    for s in ["x/y", "x", "//", "a/b/"] {
        assert_eq!(after_last_slash_of(s), s.rsplit_once("/").map(|(_, r)| r.to_string()));
    }
}

#[test]
fn contains_and_starts_with() {
    assert!(contains("comment-add", "add"));
    assert!(!contains("comment", "add"));
    assert!(contains("abc", ""));
    assert!(!contains("ad", "add"));
    assert!(starts_with("javascript:;", "javascript:"));
    assert!(!starts_with("/gallog/x", "javascript:"));
    assert!(!starts_with("java", "javascript:"));
}

#[test]
fn chars_of_gives_every_char() {
    assert_eq!(chars_of("가a\n"), vec!['가', 'a', '\n']);
    assert!(chars_of("").is_empty());
}
