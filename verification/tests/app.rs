use clavirio::app::{Action, App, SessionSummary};
use clavirio::document::{Document, Progress};
use clavirio::keys::{InputEvent, KeyCode, KeyEvent, KeyModifiers};
use clavirio::lessons::lesson_count;
use clavirio::settings::{KeyboardLayout, Theme};

fn key_event(code: KeyCode) -> KeyEvent {
    KeyEvent::new(code, KeyModifiers::none())
}

fn ctrl_key(c: char) -> KeyEvent {
    KeyEvent::new(KeyCode::Char(c), KeyModifiers::control())
}

fn press(app: &mut App, key: KeyEvent) -> Action {
    app.handle_event(InputEvent::Press(key), 1_000)
}

#[test]
fn elapsed_secs_zero_without_start() {
    let app = App::new();
    assert_eq!(app.elapsed_ms(123_456), 0);
}

// --- worst_keys tests ---

#[test]
fn worst_keys_empty_when_no_stats() {
    let app = App::new();
    assert!(app.worst_keys(5).is_empty());
}

#[test]
fn worst_keys_filters_by_minimum_attempts() {
    let mut app = App::new();
    // Only 1 attempt — should be filtered out (minimum is 2)
    app.key_stats.insert('a', (0, 1));
    assert!(app.worst_keys(5).is_empty());
}

#[test]
fn worst_keys_sorted_by_accuracy() {
    let mut app = App::new();
    app.key_stats.insert('a', (8, 2)); // 80% accuracy
    app.key_stats.insert('b', (5, 5)); // 50% accuracy
    app.key_stats.insert('c', (9, 1)); // 90% accuracy (but 1 miss, 10 total >= 2)
    let worst = app.worst_keys(5);
    assert_eq!(worst[0].0, 'b'); // worst first
    assert_eq!(worst[1].0, 'a');
    assert_eq!(worst[2].0, 'c');
}

#[test]
fn worst_keys_truncates() {
    let mut app = App::new();
    for (i, ch) in "abcdefgh".chars().enumerate() {
        app.key_stats.insert(ch, (5, (i as u32) + 1));
    }
    let worst = app.worst_keys(3);
    assert_eq!(worst.len(), 3);
}

// --- Key handling tests ---

#[test]
fn esc_on_main_menu_returns_quit() {
    let mut app = App::new();
    let quit = press(&mut app, key_event(KeyCode::Esc)).is_quit();
    assert!(quit);
}

#[test]
fn ctrl_f_opens_search() {
    let mut app = App::new();
    press(&mut app, ctrl_key('f'));
    assert!(app.searching);
}

#[test]
fn search_typing_builds_path() {
    let mut app = App::new();
    press(&mut app, ctrl_key('f'));
    press(&mut app, key_event(KeyCode::Char('a')));
    press(&mut app, key_event(KeyCode::Char('b')));
    assert_eq!(app.file_path_buf, "ab");
}

#[test]
fn search_backspace_removes_char() {
    let mut app = App::new();
    press(&mut app, ctrl_key('f'));
    press(&mut app, key_event(KeyCode::Char('x')));
    press(&mut app, key_event(KeyCode::Backspace));
    assert_eq!(app.file_path_buf, "");
}

#[test]
fn search_esc_cancels() {
    let mut app = App::new();
    press(&mut app, ctrl_key('f'));
    press(&mut app, key_event(KeyCode::Char('x')));
    press(&mut app, key_event(KeyCode::Esc));
    assert!(!app.searching);
    assert!(app.file_path_buf.is_empty());
}

#[test]
fn typing_correct_char_advances() {
    let mut app = App::new();
    app.document = Some(Document::from_text("hi").unwrap());
    press(&mut app, key_event(KeyCode::Char('h')));
    assert_eq!(app.correct_count, 1);
    assert_eq!(app.total_count, 1);
    assert!(app.last_correct);
    assert_eq!(app.document.as_ref().unwrap().expected_char(), Some('i'));
}

#[test]
fn typing_wrong_char_sets_error() {
    let mut app = App::new();
    app.document = Some(Document::from_text("hi").unwrap());
    press(&mut app, key_event(KeyCode::Char('x')));
    assert_eq!(app.last_error_char, Some('x'));
    assert!(!app.last_correct);
    assert_eq!(app.total_count, 1);
    assert_eq!(app.correct_count, 0);
    // Cursor should NOT have advanced
    assert_eq!(app.document.as_ref().unwrap().expected_char(), Some('h'));
}

#[test]
fn typing_blocked_during_error() {
    let mut app = App::new();
    app.document = Some(Document::from_text("hi").unwrap());
    press(&mut app, key_event(KeyCode::Char('x'))); // error
    press(&mut app, key_event(KeyCode::Char('h'))); // blocked
    assert_eq!(app.total_count, 1); // no new keystroke counted
    assert_eq!(app.last_error_char, Some('x'));
}

#[test]
fn backspace_clears_error() {
    let mut app = App::new();
    app.document = Some(Document::from_text("hi").unwrap());
    press(&mut app, key_event(KeyCode::Char('x')));
    assert!(app.last_error_char.is_some());
    press(&mut app, key_event(KeyCode::Backspace));
    assert!(app.last_error_char.is_none());
}

#[test]
fn menu_navigation() {
    let mut app = App::new();
    press(&mut app, key_event(KeyCode::Down));
    assert_eq!(app.selected_lesson, 1);
    press(&mut app, key_event(KeyCode::Down));
    assert_eq!(app.selected_lesson, 2);
    press(&mut app, key_event(KeyCode::Up));
    assert_eq!(app.selected_lesson, 1);
}

#[test]
fn menu_up_at_zero_stays_zero() {
    let mut app = App::new();
    press(&mut app, key_event(KeyCode::Up));
    assert_eq!(app.selected_lesson, 0);
}

#[test]
fn enter_selects_lesson() {
    let mut app = App::new();
    press(&mut app, key_event(KeyCode::Enter));
    assert!(app.document.is_some());
    assert!(!app.lesson_name.is_empty());
}

#[test]
fn tick_clears_expired_highlight() {
    let mut app = App::new();
    app.highlighted_key = Some(KeyCode::Char('A'));
    app.highlight_until = Some(5_000);
    app.handle_event(InputEvent::Tick, 6_000);
    assert!(app.highlighted_key.is_none());
    assert!(app.highlight_until.is_none());
}

#[test]
fn complete_document_sets_finished() {
    let mut app = App::new();
    app.document = Some(Document::from_text("a").unwrap());
    press(&mut app, key_event(KeyCode::Char('a')));
    assert!(app.is_finished());
    assert!(app.end_time.is_some());
}

#[test]
fn restart_resets_all_state() {
    let mut app = App::new();
    app.document = Some(Document::from_text("abc").unwrap());
    // Type two correct chars
    press(&mut app, key_event(KeyCode::Char('a')));
    press(&mut app, key_event(KeyCode::Char('b')));
    assert_eq!(app.correct_count, 2);
    assert!(app.start_time.is_some());

    // Restart via Ctrl-R
    press(&mut app, ctrl_key('r'));
    assert_eq!(app.correct_count, 0);
    assert_eq!(app.total_count, 0);
    assert!(app.start_time.is_none());
    assert!(app.end_time.is_none());
    assert!(app.key_stats.is_empty());
    assert!(app.last_error_char.is_none());
    let doc = app.document.as_ref().unwrap();
    assert_eq!(doc.cursor_position(), 0);
    assert_eq!(doc.expected_char(), Some('a'));
}

#[test]
fn key_stats_tracks_hits_and_misses() {
    let mut app = App::new();
    app.document = Some(Document::from_text("aa").unwrap());
    press(&mut app, key_event(KeyCode::Char('a'))); // hit
    press(&mut app, key_event(KeyCode::Char('x'))); // miss
    press(&mut app, key_event(KeyCode::Backspace)); // clear error
    press(&mut app, key_event(KeyCode::Char('a'))); // hit

    let stats = app.key_stats.get(&'a').unwrap();
    assert_eq!(stats.0, 2); // 2 hits
    assert_eq!(stats.1, 1); // 1 miss
}

#[test]
fn space_highlight_uses_space_char() {
    let mut app = App::new();
    app.document = Some(Document::from_text("a b").unwrap());
    press(&mut app, key_event(KeyCode::Char('a')));
    press(&mut app, key_event(KeyCode::Char(' ')));
    assert_eq!(app.highlighted_key, Some(KeyCode::Char(' ')));
}

#[test]
fn menu_down_at_last_stays_at_last() {
    let mut app = App::new();
    let last = lesson_count() - 1;
    app.selected_lesson = last;
    press(&mut app, key_event(KeyCode::Down));
    assert_eq!(app.selected_lesson, last);
}

#[test]
fn h_key_opens_history() {
    let mut app = App::new();
    press(&mut app, key_event(KeyCode::Char('h')));
    assert!(app.viewing_history);
}

#[test]
fn esc_closes_history() {
    let mut app = App::new();
    press(&mut app, key_event(KeyCode::Char('h')));
    assert!(app.viewing_history);
    let quit = press(&mut app, key_event(KeyCode::Esc)).is_quit();
    assert!(!quit);
    assert!(!app.viewing_history);
}

#[test]
fn history_scroll_navigation() {
    let mut app = App::new();
    // A history of two sessions
    app.history_len = 2;
    app.history_scroll = 1;
    app.viewing_history = true;

    press(&mut app, key_event(KeyCode::Up));
    assert_eq!(app.history_scroll, 0);
    press(&mut app, key_event(KeyCode::Up));
    assert_eq!(app.history_scroll, 0); // stays at 0
    press(&mut app, key_event(KeyCode::Down));
    assert_eq!(app.history_scroll, 1);
    press(&mut app, key_event(KeyCode::Down));
    assert_eq!(app.history_scroll, 1); // stays at last
}

#[test]
fn save_on_exit_does_nothing_without_document() {
    let app = App::new();
    assert!(app.save_on_exit(0).is_none());
}

#[test]
fn save_on_exit_does_nothing_when_finished() {
    let mut app = App::new();
    app.document = Some(Document::from_text("a").unwrap());
    press(&mut app, key_event(KeyCode::Char('a')));
    assert!(app.is_finished());
    // already saved on completion
    assert!(app.save_on_exit(2_000).is_none());
}

#[test]
fn j_k_navigate_menu() {
    let mut app = App::new();
    press(&mut app, key_event(KeyCode::Char('j')));
    assert_eq!(app.selected_lesson, 1);
    press(&mut app, key_event(KeyCode::Char('k')));
    assert_eq!(app.selected_lesson, 0);
}

#[test]
fn r_restarts_on_finished_screen() {
    let mut app = App::new();
    app.document = Some(Document::from_text("a").unwrap());
    press(&mut app, key_event(KeyCode::Char('a')));
    assert!(app.is_finished());

    press(&mut app, key_event(KeyCode::Char('r')));
    assert!(!app.is_finished());
    assert_eq!(app.correct_count, 0);
    assert_eq!(app.document.as_ref().unwrap().expected_char(), Some('a'));
}

#[test]
fn search_ignores_ctrl_chars() {
    let mut app = App::new();
    press(&mut app, ctrl_key('f')); // open search
    press(&mut app, ctrl_key('a')); // ctrl-a ignored
    assert_eq!(app.file_path_buf, "");
}

// --- further cases ---

#[test]
fn finishing_saves_completed_session() {
    let mut app = App::new();
    app.document = Some(Document::from_text("ab").unwrap());
    app.lesson_name = "drill".to_string();
    app.handle_event(InputEvent::Press(key_event(KeyCode::Char('a'))), 1_000);
    app.handle_event(InputEvent::Press(key_event(KeyCode::Char('x'))), 2_000);
    app.handle_event(InputEvent::Press(key_event(KeyCode::Backspace)), 2_500);
    let act = app.handle_event(InputEvent::Press(key_event(KeyCode::Char('b'))), 61_000);
    match act {
        Action::SaveSession(s) => {
            assert_eq!(s.correct, 2);
            assert_eq!(s.total, 3);
            assert_eq!(s.elapsed_ms, 60_000);
            assert!(s.completed);
            assert_eq!(s.lesson, "drill");
        }
        other => panic!("expected a saved session, got {other:?}"),
    }
    assert_eq!(app.elapsed_ms(99_000), 60_000);
}

#[test]
fn esc_saves_unfinished_session_and_returns_to_menu() {
    let mut app = App::new();
    app.document = Some(Document::from_text("abc").unwrap());
    app.handle_event(InputEvent::Press(key_event(KeyCode::Char('a'))), 1_000);
    let act = app.handle_event(InputEvent::Press(key_event(KeyCode::Esc)), 4_000);
    match act {
        Action::SaveSession(s) => {
            assert!(!s.completed);
            assert_eq!(s.total, 1);
            assert_eq!(s.elapsed_ms, 3_000);
        }
        other => panic!("expected a saved session, got {other:?}"),
    }
    assert!(app.document.is_none());
    assert_eq!(app.total_count, 0);
}

#[test]
fn esc_without_keystrokes_saves_nothing() {
    let mut app = App::new();
    app.document = Some(Document::from_text("abc").unwrap());
    let act = press(&mut app, key_event(KeyCode::Esc));
    assert_eq!(act, Action::Continue);
    assert!(app.document.is_none());
}

#[test]
fn save_on_exit_in_the_middle() {
    let mut app = App::new();
    app.document = Some(Document::from_text("abc").unwrap());
    app.handle_event(InputEvent::Press(key_event(KeyCode::Char('a'))), 1_000);
    let s = app.save_on_exit(1_500).unwrap();
    assert!(!s.completed);
    assert_eq!(s.correct, 1);
    assert_eq!(s.elapsed_ms, 500);
}

#[test]
fn enter_in_search_asks_for_the_file() {
    let mut app = App::new();
    press(&mut app, ctrl_key('f'));
    press(&mut app, key_event(KeyCode::Char('x')));
    let act = press(&mut app, key_event(KeyCode::Enter));
    assert_eq!(act, Action::LoadFile("x".to_string()));
    assert!(!app.searching);
    assert!(app.file_path_buf.is_empty());
}

#[test]
fn loaded_file_opens_or_reports() {
    let mut app = App::new();
    app.file_loaded("notes.txt".to_string(), Ok("hello\nworld".to_string()));
    assert_eq!(app.lesson_name, "notes.txt");
    assert_eq!(app.document.as_ref().unwrap().current_line, "hello");
    assert!(app.error.is_none());

    let mut app = App::new();
    app.file_loaded("empty.txt".to_string(), Ok(String::new()));
    assert_eq!(app.error.as_deref(), Some("Text is empty"));
    assert!(app.document.is_none());

    let mut app = App::new();
    app.file_loaded("x".to_string(), Err("File not found: x".to_string()));
    assert_eq!(app.error.as_deref(), Some("File not found: x"));
}

#[test]
fn error_screen_esc_returns_to_menu() {
    let mut app = App::new();
    app.file_loaded("x".to_string(), Err("nope".to_string()));
    let act = press(&mut app, key_event(KeyCode::Esc));
    assert!(!act.is_quit());
    assert!(app.error.is_none());
    let act = press(&mut app, key_event(KeyCode::Esc));
    assert!(act.is_quit());
}

#[test]
fn h_asks_for_history_and_scrolls_to_last() {
    let mut app = App::new();
    let act = press(&mut app, key_event(KeyCode::Char('h')));
    assert_eq!(act, Action::LoadHistory);
    app.history_loaded(4);
    assert_eq!(app.history_len, 4);
    assert_eq!(app.history_scroll, 3);
}

#[test]
fn l_cycles_layout_on_menu() {
    let mut app = App::new();
    press(&mut app, key_event(KeyCode::Char('l')));
    assert_eq!(app.layout, KeyboardLayout::Dvorak);
    press(&mut app, key_event(KeyCode::Char('l')));
    press(&mut app, key_event(KeyCode::Char('l')));
    assert_eq!(app.layout, KeyboardLayout::Qwerty);
}

#[test]
fn display_toggles_on_menu() {
    let mut app = App::new();
    press(&mut app, key_event(KeyCode::Char('1')));
    assert!(!app.display.show_fingers);
    press(&mut app, key_event(KeyCode::Char('2')));
    assert!(!app.display.show_hints);
    // fingers only toggle while hints are on
    press(&mut app, key_event(KeyCode::Char('1')));
    assert!(!app.display.show_fingers);
    press(&mut app, key_event(KeyCode::Char('3')));
    assert!(!app.display.show_keyboard);
}

#[test]
fn highlight_expires_only_after_its_time() {
    let mut app = App::new();
    app.document = Some(Document::from_text("ab").unwrap());
    app.handle_event(InputEvent::Press(key_event(KeyCode::Char('a'))), 1_000);
    assert_eq!(app.highlighted_key, Some(KeyCode::Char('A')));
    assert_eq!(app.highlight_until, Some(1_400));
    app.handle_event(InputEvent::Tick, 1_399);
    assert!(app.highlighted_key.is_some());
    app.handle_event(InputEvent::Tick, 1_400);
    assert!(app.highlighted_key.is_none());
}

#[test]
fn selected_lesson_text_is_loaded() {
    let mut app = App::new();
    app.selected_lesson = lesson_count() - 1;
    press(&mut app, key_event(KeyCode::Enter));
    let doc = app.document.as_ref().unwrap();
    assert_eq!(doc.progress, Progress::Active);
    assert_eq!(app.lesson_name, "Code (Rust)");
}

#[test]
fn display_toggles_pressed_twice_undo_themselves() {
    for c in ['1', '2', '3', '4'] {
        let mut app = App::new();
        let before = (app.display, app.layout, app.selected_lesson);
        assert_eq!(press(&mut app, key_event(KeyCode::Char(c))), Action::SaveSettings);
        assert_ne!(app.display, before.0);
        assert_eq!(press(&mut app, key_event(KeyCode::Char(c))), Action::SaveSettings);
        assert_eq!((app.display, app.layout, app.selected_lesson), before);
    }
}

#[test]
fn file_prompt_cancel_only_clears_the_error() {
    let mut app = App::new();
    app.file_loaded("missing.txt".to_string(), Err("File not found: missing.txt".to_string()));
    assert!(app.error.is_some());
    assert_eq!(press(&mut app, ctrl_key('f')), Action::Continue);
    assert!(app.searching);
    assert_eq!(press(&mut app, key_event(KeyCode::Esc)), Action::Continue);
    assert!(!app.searching);
    assert!(app.error.is_none());
    assert!(app.file_path_buf.is_empty());
    assert!(app.document.is_none());
    // back on the menu: Escape now quits
    assert!(press(&mut app, key_event(KeyCode::Esc)).is_quit());
}

#[test]
fn ctrl_c_on_menu_quits() {
    let mut app = App::new();
    let act = press(&mut app, ctrl_key('c'));
    assert_eq!(act, Action::Quit);
    assert!(act.is_quit());
}

#[test]
fn ctrl_c_saves_unfinished_session_and_quits() {
    let mut app = App::new();
    app.file_loaded("t.txt".to_string(), Ok("abc".to_string()));
    app.handle_event(InputEvent::Press(key_event(KeyCode::Char('a'))), 1_000);
    app.handle_event(InputEvent::Press(key_event(KeyCode::Char('x'))), 2_000);
    let act = app.handle_event(InputEvent::Press(ctrl_key('c')), 4_500);
    assert!(act.is_quit());
    assert_eq!(
        act,
        Action::SaveAndQuit(SessionSummary {
            correct: 1,
            total: 2,
            elapsed_ms: 3_500,
            completed: false,
            lesson: "t.txt".to_string(),
        })
    );
    // the keystroke is not typed
    assert_eq!(app.total_count, 2);
    assert_eq!(app.last_error_char, Some('x'));
}

#[test]
fn ctrl_c_without_keystrokes_or_after_finishing_just_quits() {
    let mut app = App::new();
    app.file_loaded("t.txt".to_string(), Ok("a".to_string()));
    assert_eq!(press(&mut app, ctrl_key('c')), Action::Quit);
    press(&mut app, key_event(KeyCode::Char('a')));
    assert!(app.is_finished());
    assert_eq!(press(&mut app, ctrl_key('c')), Action::Quit);
}

#[test]
fn four_toggles_the_theme() {
    let mut app = App::new();
    assert_eq!(app.display.theme, Theme::Dark);
    assert_eq!(press(&mut app, key_event(KeyCode::Char('4'))), Action::SaveSettings);
    assert_eq!(app.display.theme, Theme::Light);
    assert!(app.display.show_fingers && app.display.show_hints && app.display.show_keyboard);
    press(&mut app, key_event(KeyCode::Char('4')));
    assert_eq!(app.display.theme, Theme::Dark);
}

#[test]
fn finishing_a_lesson_moves_the_menu_cursor_on() {
    let mut app = App::new();
    app.selected_lesson = 2;
    press(&mut app, key_event(KeyCode::Enter));
    assert_eq!(app.lesson_index, Some(2));
    // leaving unfinished keeps the cursor on the lesson
    press(&mut app, key_event(KeyCode::Esc));
    assert_eq!(app.selected_lesson, 2);
    // a finished lesson moves it to the next one
    press(&mut app, key_event(KeyCode::Enter));
    app.document = Some(Document::from_text("a").unwrap());
    press(&mut app, key_event(KeyCode::Char('a')));
    assert!(app.is_finished());
    assert_eq!(app.selected_lesson, 3);
    // the last lesson stays the last
    let mut app = App::new();
    app.selected_lesson = lesson_count() - 1;
    press(&mut app, key_event(KeyCode::Enter));
    app.document = Some(Document::from_text("a").unwrap());
    press(&mut app, key_event(KeyCode::Char('a')));
    assert_eq!(app.selected_lesson, lesson_count() - 1);
    // a file does not move it
    let mut app = App::new();
    app.selected_lesson = 4;
    app.file_loaded("t.txt".to_string(), Ok("a".to_string()));
    press(&mut app, key_event(KeyCode::Char('a')));
    assert!(app.is_finished());
    assert_eq!(app.selected_lesson, 4);
}

#[test]
fn menu_cursor_resumes_from_history() {
    let mut app = App::new();
    let sessions = vec![
        ("Home Row".to_string(), true),
        ("notes.txt".to_string(), false),
    ];
    app.resume_from(&sessions);
    assert_eq!(app.selected_lesson, 4);
    let sessions = vec![("Home Row".to_string(), true), ("Top Row".to_string(), false)];
    app.resume_from(&sessions);
    assert_eq!(app.selected_lesson, 6);
    app.resume_from(&vec![]);
    assert_eq!(app.selected_lesson, 0);
}

#[test]
fn key_counts_add_up_to_keystrokes() {
    let mut app = App::new();
    app.file_loaded("t.txt".to_string(), Ok("aab".to_string()));
    for c in ['a', 'x'] {
        press(&mut app, key_event(KeyCode::Char(c)));
    }
    press(&mut app, key_event(KeyCode::Backspace));
    for c in ['a', 'q'] {
        press(&mut app, key_event(KeyCode::Char(c)));
    }
    press(&mut app, key_event(KeyCode::Backspace));
    press(&mut app, key_event(KeyCode::Char('b')));
    let mut hits = 0;
    let mut misses = 0;
    for c in ['a', 'b'] {
        let (h, m) = app.key_stats.get(&c).unwrap();
        hits += h;
        misses += m;
    }
    assert_eq!(hits, app.correct_count);
    assert_eq!(misses, app.total_count - app.correct_count);
    assert_eq!((app.correct_count, app.total_count), (3, 5));
}

#[test]
fn settings_are_saved_on_each_change() {
    let mut app = App::new();
    assert_eq!(press(&mut app, key_event(KeyCode::Char('l'))), Action::SaveSettings);
    assert_eq!(press(&mut app, key_event(KeyCode::Char('2'))), Action::SaveSettings);
    // fingers cannot change while hints are off: nothing to save
    assert_eq!(press(&mut app, key_event(KeyCode::Char('1'))), Action::Continue);
    assert_eq!(press(&mut app, key_event(KeyCode::Char('2'))), Action::SaveSettings);
    assert_eq!(press(&mut app, key_event(KeyCode::Char('1'))), Action::SaveSettings);
    assert_eq!(press(&mut app, key_event(KeyCode::Down)), Action::Continue);
}

#[test]
fn only_typed_characters_count_as_keystrokes() {
    let mut app = App::new();
    let typed = InputEvent::Press(key_event(KeyCode::Char('a')));
    assert!(!app.counts_event(&typed));
    app.file_loaded("t.txt".to_string(), Ok("ab".to_string()));
    assert!(app.counts_event(&typed));
    assert!(!app.counts_event(&InputEvent::Tick));
    assert!(!app.counts_event(&InputEvent::Press(key_event(KeyCode::Esc))));
    assert!(!app.counts_event(&InputEvent::Press(ctrl_key('c'))));
    press(&mut app, key_event(KeyCode::Char('x')));
    // blocked by the error: not counted
    assert!(!app.counts_event(&typed));
    press(&mut app, key_event(KeyCode::Backspace));
    assert!(app.counts_event(&typed));
}
