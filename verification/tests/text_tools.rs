use gimme_a_chance::text;

#[test]
fn trims_unicode_white_space() {
    assert_eq!(text::trim("\u{3000} a b\u{a0}\n"), "a b");
    assert_eq!(text::trim(" \t\r\n"), "");
    assert_eq!(text::trim("plain"), "plain");
}

#[test]
fn numbers_in_decimal() {
    let mut s = String::new();
    text::push_decimal(&mut s, 0);
    s.push(' ');
    text::push_decimal(&mut s, u64::MAX);
    s.push(' ');
    text::push_decimal_int(&mut s, i64::MIN);
    s.push(' ');
    text::push_two_digits(&mut s, 7);
    s.push(' ');
    text::push_two_digits(&mut s, 123);
    assert_eq!(s, "0 18446744073709551615 -9223372036854775808 07 123");
}

#[test]
fn searches_text() {
    assert!(text::contains("abcabd", "abd"));
    assert!(text::contains("x", ""));
    assert!(!text::contains("ab", "abc"));
    assert!(text::starts_with("data: x", "data:"));
    assert!(!text::starts_with("dat", "data:"));
    assert_eq!(text::strip_prefix("data: x", "data:"), Some(" x"));
    assert_eq!(text::strip_prefix("event", "data:"), None);
    assert!(text::has_char("a\nb", '\n'));
}

#[test]
fn splits_lines_like_std() {
    for s in ["", "a", "a\n", "a\nb", "a\r\nb\r\n", "\n\n", "a\rb\n"] {
        let want: Vec<String> = s.lines().map(String::from).collect();
        assert_eq!(text::lines(s), want);
    }
}

#[test]
fn counts_words_like_std() {
    for s in ["", " ", "one", " one  two\tthree ", "a\u{a0}b"] {
        assert_eq!(text::word_count(s), s.split_whitespace().count());
    }
}

#[test]
fn cuts_by_characters_and_bytes() {
    assert_eq!(text::take_chars("añb", 2), "añ");
    assert_eq!(text::take_chars("ab", 9), "ab");
    assert_eq!(text::take_bytes("añb", 2), "a");
    assert_eq!(text::take_bytes("añb", 3), "añ");
    assert_eq!(text::take_bytes("😀", 3), "");
    assert_eq!(text::byte_len("ñ😀"), 6);
}

#[test]
fn joins_with_separators() {
    let parts = vec!["a".to_string(), String::new(), "b".to_string()];
    assert_eq!(text::join(&parts, ", "), "a, , b");
    assert_eq!(text::join(&Vec::new(), ", "), "");
}

#[test]
fn finds_runs() {
    let keep = vec![true, false, true, true, false];
    assert_eq!(text::runs("a-bc-", &keep), vec!["a".to_string(), "bc".to_string()]);
}

#[test]
fn finds_line_feeds() {
    let cs: Vec<char> = "ab\nc\n".chars().collect();
    assert_eq!(text::find_line_feed(&cs, 0), 2);
    assert_eq!(text::find_line_feed(&cs, 3), 4);
    assert_eq!(text::find_line_feed(&cs, 5), 5);
}
