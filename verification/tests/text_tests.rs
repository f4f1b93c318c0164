use orion_client::text::{
    chars_of, decimal_text, joined, line_list, parse_uint, split_chars, split_once_chars,
    string_of, to_lower, trimmed,
};

fn s(v: &[char]) -> String {
    v.iter().collect()
}

fn lines_of(t: &str) -> Vec<String> {
    line_list(&chars_of(t)).iter().map(|l| s(l)).collect()
}

#[test]
fn trim_removes_unicode_whitespace_at_both_ends() {
    assert_eq!(s(&trimmed(&chars_of(" \t\u{a0}abc d\u{3000}\n"))), "abc d");
    assert_eq!(s(&trimmed(&chars_of("   "))), "");
    assert_eq!(s(&trimmed(&chars_of(""))), "");
}

#[test]
fn lines_follow_str_lines() {
    for t in ["a\nb", "a\r\nb\r\n", "", "\n", "a\r", "x\n\ny", "a\rb\n"] {
        let expected: Vec<String> = t.lines().map(|l| l.to_string()).collect();
        assert_eq!(lines_of(t), expected, "text {t:?}");
    }
}

#[test]
fn split_and_split_once_follow_str() {
    let v: Vec<String> = split_chars(&chars_of("a,,b,"), ',').iter().map(|p| s(p)).collect();
    assert_eq!(v, vec!["a", "", "b", ""]);
    let (a, b) = split_once_chars(&chars_of("k = v = w"), '=').unwrap();
    assert_eq!(s(&a), "k ");
    assert_eq!(s(&b), " v = w");
    assert!(split_once_chars(&chars_of("novalue"), '=').is_none());
}

#[test]
fn ascii_lowercase_leaves_other_characters() {
    assert_eq!(s(&to_lower(&chars_of("[Interface] ÄB"))), "[interface] Äb");
}

#[test]
fn unsigned_parsing_matches_str_parse() {
    for t in ["0", "51820", "+7", "65535", "65536", "", "+", "-1", "12a", " 1", "007"] {
        let ours = parse_uint(&chars_of(t), 65535).map(|x| x as u16);
        assert_eq!(ours, t.parse::<u16>().ok(), "text {t:?}");
    }
    assert_eq!(parse_uint(&chars_of("18446744073709551615"), u64::MAX), Some(u64::MAX));
    assert_eq!(parse_uint(&chars_of("18446744073709551616"), u64::MAX), None);
}

#[test]
fn decimal_text_prints_like_display() {
    for n in [0u64, 7, 10, 51820, u64::MAX] {
        assert_eq!(s(&decimal_text(n)), n.to_string());
    }
}

#[test]
fn join_puts_separator_between_parts() {
    let parts = vec![chars_of("a"), chars_of("b c"), chars_of("")];
    assert_eq!(s(&joined(&parts, "; ")), "a; b c; ");
    assert_eq!(s(&joined(&Vec::new(), "; ")), "");
    assert_eq!(string_of(&chars_of("x")), "x");
}
