use agent_term_cli::text::{
    breaks_to_cr, chars_start_with, contains_str, pop_char, push_char, push_decimal,
    split_lines, string_byte_len, to_chars, trim,
};

#[test]
fn lines_follow_str_lines() {
    for s in ["", "a", "a\n", "a\r\nb", "a\n\nb\n", "\n", "x\r", "a\rb\nc\r\n", "é\nü"] {
        let expected: Vec<String> = s.lines().map(String::from).collect();
        assert_eq!(split_lines(s), expected, "input {:?}", s);
    }
}

#[test]
fn decimal_rendering() {
    let mut s = String::new();
    push_decimal(&mut s, 0);
    assert_eq!(s, "0");
    let mut s = "n=".to_string();
    push_decimal(&mut s, 1234567890);
    assert_eq!(s, "n=1234567890");
    let mut s = String::new();
    push_decimal(&mut s, u128::MAX);
    assert_eq!(s, u128::MAX.to_string());
}

#[test]
fn char_helpers() {
    assert_eq!(to_chars("héllo"), vec!['h', 'é', 'l', 'l', 'o']);
    assert!(chars_start_with(&['a', 'b', 'c'], &['a', 'b']));
    assert!(!chars_start_with(&['a'], &['a', 'b']));
    assert!(chars_start_with(&['a'], &[]));
    let mut s = "ab".to_string();
    push_char(&mut s, 'ç');
    assert_eq!(s, "abç");
    assert_eq!(pop_char(&mut s), Some('ç'));
    assert_eq!(s, "ab");
    let mut e = String::new();
    assert_eq!(pop_char(&mut e), None);
    assert_eq!(string_byte_len(&"aé".to_string()), 3);
}

#[test]
fn substring_search() {
    assert!(contains_str("Session not found: 1", "Session not found"));
    assert!(contains_str("abc", ""));
    assert!(contains_str("abc", "bc"));
    assert!(!contains_str("ab", "abc"));
    assert!(!contains_str("abc", "ac"));
}

#[test]
fn trim_and_breaks() {
    assert_eq!(trim("  http://x \t\n"), "http://x");
    assert_eq!(trim("\u{a0}\u{3000}x y\u{2028}\u{85}"), "x y");
    assert_eq!(trim(" \t\r\n"), "");
    assert_eq!(trim(""), "");
    assert_eq!(trim("a"), "a");
    assert_eq!(trim("\u{200b}a"), "\u{200b}a");
    assert_eq!(breaks_to_cr("a\r\nb\nc"), "a\r\rb\rc");
}
