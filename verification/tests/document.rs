use clavirio::document::{Document, Progress};

#[test]
fn from_text_single_line() {
    let doc = Document::from_text("hello").unwrap();
    assert_eq!(doc.current_line, "hello");
    assert_eq!(doc.cursor_position(), 0);
    assert_eq!(doc.expected_char(), Some('h'));
    assert_eq!(doc.progress, Progress::Active);
}

#[test]
fn from_text_empty_returns_error() {
    assert!(Document::from_text("").is_err());
}

#[test]
fn from_text_skips_leading_blank_lines() {
    let doc = Document::from_text("\n\nabc").unwrap();
    assert_eq!(doc.current_line, "abc");
    assert_eq!(doc.expected_char(), Some('a'));
}

#[test]
fn advance_through_single_line() {
    let mut doc = Document::from_text("ab").unwrap();
    assert_eq!(doc.expected_char(), Some('a'));
    doc.advance();
    assert_eq!(doc.expected_char(), Some('b'));
    assert_eq!(doc.progress, Progress::Active);
    doc.advance();
    assert_eq!(doc.progress, Progress::Finished);
}

#[test]
fn advance_across_lines() {
    let mut doc = Document::from_text("ab\ncd").unwrap();
    doc.advance(); // past 'a'
    doc.advance(); // past 'b' -> moves to line "cd"
    assert_eq!(doc.current_line, "cd");
    assert_eq!(doc.cursor_position(), 0);
    assert_eq!(doc.expected_char(), Some('c'));
}

#[test]
fn advance_skips_blank_lines() {
    let mut doc = Document::from_text("a\n\nb").unwrap();
    doc.advance(); // past 'a' -> skip blank -> land on "b"
    assert_eq!(doc.current_line, "b");
    assert_eq!(doc.expected_char(), Some('b'));
}

#[test]
fn advance_to_finished() {
    let mut doc = Document::from_text("a").unwrap();
    doc.advance();
    assert_eq!(doc.progress, Progress::Finished);
}

#[test]
fn reset_restores_initial_state() {
    let mut doc = Document::from_text("ab\ncd").unwrap();
    doc.advance();
    doc.advance();
    assert_eq!(doc.current_line, "cd");
    doc.reset();
    assert_eq!(doc.current_line, "ab");
    assert_eq!(doc.cursor_position(), 0);
    assert_eq!(doc.progress, Progress::Active);
}

#[test]
fn upcoming_lines_returns_next_nonempty() {
    let doc = Document::from_text("first\n\nsecond\nthird").unwrap();
    let upcoming = doc.upcoming_lines(3);
    assert_eq!(upcoming, vec!["second", "third"]);
}

#[test]
fn line_progress_tracks_position() {
    let mut doc = Document::from_text("a\nb\nc").unwrap();
    assert_eq!(doc.line_progress(), (1, 3));
    doc.advance(); // finish "a", move to "b"
    assert_eq!(doc.line_progress(), (2, 3));
    doc.advance(); // finish "b", move to "c"
    assert_eq!(doc.line_progress(), (3, 3));
}

#[test]
fn utf8_document_works() {
    let mut doc = Document::from_text("café").unwrap();
    assert_eq!(doc.expected_char(), Some('c'));
    doc.advance();
    assert_eq!(doc.expected_char(), Some('a'));
    doc.advance();
    assert_eq!(doc.expected_char(), Some('f'));
    doc.advance();
    assert_eq!(doc.expected_char(), Some('é'));
    doc.advance();
    assert_eq!(doc.progress, Progress::Finished);
}

// --- further cases ---

#[test]
fn from_text_error_message() {
    let err = Document::from_text("").unwrap_err();
    assert_eq!(err, "Text is empty");
}

#[test]
fn blank_only_text_is_not_empty() {
    // "\n" has one (blank) line: a document with nothing to type
    let doc = Document::from_text("\n").unwrap();
    assert_eq!(doc.current_line, "");
    assert_eq!(doc.expected_char(), None);
    assert_eq!(doc.line_progress(), (1, 0));
}

#[test]
fn crlf_line_endings_are_dropped() {
    let mut doc = Document::from_text("ab\r\ncd\r\n").unwrap();
    assert_eq!(doc.current_line, "ab");
    doc.advance();
    doc.advance();
    assert_eq!(doc.current_line, "cd");
    assert_eq!(doc.line_progress(), (2, 2));
}

#[test]
fn lone_carriage_return_at_end_is_kept() {
    let doc = Document::from_text("ab\r").unwrap();
    assert_eq!(doc.current_line, "ab\r");
}

#[test]
fn leading_blank_lines_repeat_first_line() {
    // the first non-blank line is shown from the start, but the line index
    // still starts at 0, so that line comes again after it is typed
    let mut doc = Document::from_text("\nab").unwrap();
    doc.advance();
    doc.advance();
    assert_eq!(doc.progress, Progress::Active);
    assert_eq!(doc.current_line, "ab");
    doc.advance();
    doc.advance();
    assert_eq!(doc.progress, Progress::Finished);
}

#[test]
fn upcoming_lines_respects_count() {
    let doc = Document::from_text("a\nb\nc\nd").unwrap();
    assert_eq!(doc.upcoming_lines(2), vec!["b", "c"]);
    assert!(doc.upcoming_lines(0).is_empty());
}

#[test]
fn upcoming_lines_after_finish_is_empty() {
    let mut doc = Document::from_text("a\nb").unwrap();
    doc.advance();
    doc.advance();
    assert_eq!(doc.progress, Progress::Finished);
    assert!(doc.upcoming_lines(2).is_empty());
    assert_eq!(doc.line_progress(), (3, 2));
}

#[test]
fn typing_counts_down_to_finish() {
    // the number of keystrokes to finish is the number of characters of
    // the non-blank lines when the first line is not blank
    let text = "ab\n\ncde\nf";
    let mut doc = Document::from_text(text).unwrap();
    let mut typed = 0;
    while doc.progress == Progress::Active {
        assert!(doc.expected_char().is_some());
        doc.advance();
        typed += 1;
    }
    assert_eq!(typed, 6);
}

#[test]
fn finished_text_stays_finished() {
    let mut doc = Document::from_text("ab").unwrap();
    doc.advance();
    doc.advance();
    assert_eq!(doc.progress, Progress::Finished);
    assert_eq!(doc.expected_char(), None);
    doc.advance();
    assert_eq!(doc.progress, Progress::Finished);
    assert_eq!(doc.expected_char(), None);
}

#[test]
fn line_number_stays_in_range_and_never_drops() {
    let mut doc = Document::from_text("ab\n\ncd\ne").unwrap();
    let mut last = 0;
    while doc.progress == Progress::Active {
        let (cur, total) = doc.line_progress();
        assert_eq!(total, 3);
        assert!(1 <= cur && cur <= total);
        assert!(cur >= last);
        last = cur;
        assert!(doc.expected_char().is_some());
        doc.advance();
    }
    assert_eq!(last, 3);
}

#[test]
fn typing_runs_through_each_character_once() {
    let mut doc = Document::from_text("ab\n\ncd\r\ne\n").unwrap();
    let mut seen = String::new();
    while let Some(c) = doc.expected_char() {
        seen.push(c);
        doc.advance();
    }
    assert_eq!(seen, "abcde");
    assert_eq!(doc.progress, Progress::Finished);
}
