use clavirio::text::{chars_of, is_whitespace, split_lines, string_from_chars, to_ascii_uppercase};

#[test]
fn lines_split_like_str_lines() {
    for text in ["", "a", "a\n", "a\nb", "a\r\nb\r\n", "\n\n", "a\r", "x\n\ny\r\r\n", "é\nü"] {
        let ours = split_lines(text);
        let std: Vec<String> = text.lines().map(String::from).collect();
        assert_eq!(ours, std, "text {text:?}");
    }
}

#[test]
fn chars_round_trip() {
    let chars = chars_of("héllo");
    assert_eq!(chars, vec!['h', 'é', 'l', 'l', 'o']);
    assert_eq!(string_from_chars(&chars), "héllo");
}

#[test]
fn whitespace_and_upper_case() {
    for c in [' ', '\t', '\n', '\u{a0}', '\u{2003}', '\u{3000}', 'a', 'Z', '0', '_', 'é'] {
        assert_eq!(is_whitespace(c), c.is_whitespace(), "{c:?}");
        assert_eq!(to_ascii_uppercase(c), c.to_ascii_uppercase(), "{c:?}");
    }
}

#[test]
fn file_names_are_shown_without_their_directories() {
    assert_eq!(clavirio::text::display_name("notes/today.txt"), "today.txt");
    assert_eq!(clavirio::text::display_name("today.txt"), "today.txt");
    assert_eq!(clavirio::text::display_name("a/.."), "a/..");
    assert_eq!(clavirio::text::name_for("a/b.txt", Some("b.txt".to_string())), "b.txt");
    assert_eq!(clavirio::text::name_for("a/..", None), "a/..");
}
