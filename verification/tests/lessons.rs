use clavirio::document::Document;
use clavirio::lessons::{lesson_count, lessons_for_layout, position_of_title, resume_position};
use clavirio::settings::KeyboardLayout;

#[test]
fn every_menu_has_all_lessons() {
    for layout in [KeyboardLayout::Qwerty, KeyboardLayout::Dvorak, KeyboardLayout::Colemak] {
        let lessons = lessons_for_layout(layout);
        assert_eq!(lessons.len(), lesson_count());
        assert_eq!(lesson_count(), 15);
        for lesson in &lessons {
            assert!(Document::from_text(lesson.text).is_ok());
            assert!(!lesson.title.is_empty());
        }
    }
}

#[test]
fn lessons_share_ids_and_the_last_six() {
    let q = lessons_for_layout(KeyboardLayout::Qwerty);
    let d = lessons_for_layout(KeyboardLayout::Dvorak);
    let c = lessons_for_layout(KeyboardLayout::Colemak);
    for i in 0..15 {
        assert_eq!(q[i].id, d[i].id);
        assert_eq!(q[i].title, c[i].title);
    }
    for i in 9..15 {
        assert_eq!(q[i].text, d[i].text);
        assert_eq!(q[i].text, c[i].text);
    }
    assert_eq!(q[0].keys, "f j");
    assert_eq!(d[0].keys, "u h");
    assert_eq!(c[0].keys, "t n");
    assert_eq!(q[0].id, "index_keys");
    assert_eq!(q[14].title, "Code (Rust)");
}

#[test]
fn titles_give_menu_positions() {
    assert_eq!(position_of_title(&"Index Keys".to_string()), Some(0));
    assert_eq!(position_of_title(&"Code (Rust)".to_string()), Some(14));
    assert_eq!(position_of_title(&"notes.txt".to_string()), None);
    assert_eq!(position_of_title(&String::new()), None);
}

#[test]
fn resume_points_at_last_built_in_lesson() {
    assert_eq!(resume_position(&vec![]), 0);
    assert_eq!(resume_position(&vec![("notes.txt".to_string(), true)]), 0);
    assert_eq!(resume_position(&vec![("Middle Keys".to_string(), false)]), 1);
    assert_eq!(resume_position(&vec![("Middle Keys".to_string(), true)]), 2);
    assert_eq!(
        resume_position(&vec![
            ("Middle Keys".to_string(), true),
            ("Top Intro".to_string(), false),
            ("notes.txt".to_string(), true),
        ]),
        5
    );
    assert_eq!(resume_position(&vec![("Code (Rust)".to_string(), true)]), 14);
}
