use pg_actions::text::{
    is_alphanumeric, is_whitespace, lines_str, parse_unsigned_chars, push_char, replace_str,
    split_str, str_ends_with, str_eq, str_starts_with, string_of, to_chars, trim_str,
    u64_to_decimal,
};

#[test]
fn decimal_formatting() {
    assert_eq!(u64_to_decimal(0), "0");
    assert_eq!(u64_to_decimal(7), "7");
    assert_eq!(u64_to_decimal(1234567), "1234567");
    assert_eq!(u64_to_decimal(u64::MAX), u64::MAX.to_string());
}

#[test]
fn unsigned_parsing_like_str_parse() {
    let p = |s: &str, max: u64| parse_unsigned_chars(&s.chars().collect(), max);
    assert_eq!(p("5432", 65535), Some(5432));
    assert_eq!(p("+42", 100), Some(42));
    assert_eq!(p("007", 100), Some(7));
    assert_eq!(p("65536", 65535), None);
    assert_eq!(p("", 65535), None);
    assert_eq!(p("+", 65535), None);
    assert_eq!(p("4a", 65535), None);
    assert_eq!(p("-1", 65535), None);
}

#[test]
fn char_and_substring_helpers() {
    assert_eq!(to_chars("héllo"), vec!['h', 'é', 'l', 'l', 'o']);
    assert_eq!(string_of(&to_chars("abcdef"), 1, 4), "bcd");
    let mut s = String::from("ab");
    push_char(&mut s, 'ç');
    assert_eq!(s, "abç");
    assert!(str_eq("x", "x"));
    assert!(!str_eq("x", "xy"));
    assert!(str_starts_with("s3://bucket/key", "s3://"));
    assert!(!str_starts_with("s3:", "s3://"));
    assert!(str_ends_with("backup.tar.xz", ".tar.xz"));
    assert!(!str_ends_with("backup.tar", ".tar.xz"));
}

#[test]
fn split_like_str_split() {
    assert_eq!(split_str("a:b::c", ':'), vec!["a", "b", "", "c"]);
    assert_eq!(split_str("", ':'), vec![""]);
    assert_eq!(split_str(":", ':'), vec!["", ""]);
}

#[test]
fn lines_like_str_lines() {
    assert_eq!(lines_str("a\r\nb\n\nc\n"), vec!["a", "b", "", "c"]);
    assert_eq!(lines_str("one"), vec!["one"]);
    assert_eq!(lines_str(""), Vec::<String>::new());
    assert_eq!(lines_str("\n"), vec![""]);
}

#[test]
fn trim_like_str_trim() {
    assert_eq!(trim_str("  x y \t\n"), "x y");
    assert_eq!(trim_str("\u{00A0}z\u{3000}"), "z");
    assert_eq!(trim_str("   "), "");
}

#[test]
fn replace_like_str_replace() {
    assert_eq!(replace_str("a.tar.b.tar", ".tar", ""), "a.b");
    assert_eq!(replace_str("aaa", "aa", "b"), "ba");
    assert_eq!(replace_str("none", "x", "y"), "none");
}

#[test]
fn unicode_character_classes() {
    assert!(is_alphanumeric('a'));
    assert!(is_alphanumeric('7'));
    assert!(is_alphanumeric('é'));
    assert!(is_alphanumeric('ж'));
    assert!(!is_alphanumeric('-'));
    assert!(!is_alphanumeric(' '));
    assert!(is_whitespace(' '));
    assert!(is_whitespace('\u{00A0}'));
    assert!(is_whitespace('\u{2003}'));
    assert!(!is_whitespace('x'));
}
