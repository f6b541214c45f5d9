use clavirio::app::App;
use clavirio::document::Document;
use clavirio::keyboard::{build_keyboard_rows, build_keycode_grid_map, Platform};
use clavirio::keys::{InputEvent, KeyCode, KeyEvent, KeyModifiers};
use clavirio::screen::{
    clamp_width, clock_parts, compute_regions, key_cell_widths, key_look_at, keyboard_marks,
    label_width, panel_height, place_labels, text_panel, Area, KeyLook, TextPanel,
    centered_panel, header_parts, history_rows, key_sizes, regions_from_parts, Size,
    build_keyboard_rects,
};
use clavirio::settings::KeyboardLayout;

fn area(x: u16, y: u16, width: u16, height: u16) -> Area {
    Area { x, y, width, height }
}

#[test]
fn clamp_centres_wide_screens() {
    assert_eq!(clamp_width(area(0, 0, 100, 40)), area(0, 0, 100, 40));
    assert_eq!(clamp_width(area(0, 0, 200, 40)), area(40, 0, 120, 40));
    assert_eq!(clamp_width(area(3, 1, 121, 40)), area(3, 1, 120, 40));
}

#[test]
fn key_widths_are_odd() {
    assert_eq!(key_cell_widths(120), (9, 13, 53));
    assert_eq!(key_cell_widths(130), (9, 13, 53));
    assert_eq!(key_cell_widths(143), (11, 15, 65));
    assert_eq!(key_cell_widths(10), (1, 1, 5));
    for w in 0..400u16 {
        let (u, wide, space) = key_cell_widths(w);
        assert!(u % 2 == 1 && wide % 2 == 1 && space % 2 == 1);
    }
}

#[test]
fn regions_follow_the_layout() {
    let r = compute_regions(area(0, 0, 100, 50));
    assert_eq!(r.header, area(0, 0, 100, 3));
    assert_eq!(r.keyboard_area, area(0, 30, 100, 20));
    assert_eq!(r.text_area, area(10, 3, 80, 27));
    assert_eq!(r.search_area, area(20, 3, 60, 27));
}

#[test]
fn keyboard_cells_per_row() {
    let rows = build_keyboard_rows(KeyboardLayout::Qwerty, Platform::Pc);
    let cells = build_keyboard_rects(area(0, 0, 120, 20), &rows);
    assert_eq!(cells.len(), 5);
    assert_eq!(cells[0].len(), 13);
    assert_eq!(cells[4].len(), 7);
    assert_eq!(cells[0][0].width, 9);
    assert_eq!(cells[2][11].width, 13);
    assert_eq!(cells[4][3].width, 53);
}

#[test]
fn labels_are_placed_inside() {
    let spots = place_labels(area(10, 5, 7, 2), 1, true);
    assert_eq!(spots.main, Some((13, 6)));
    assert_eq!(spots.upper, Some((13, 5)));
    let spots = place_labels(area(10, 5, 7, 2), 3, false);
    assert_eq!(spots.main, Some((12, 6)));
    assert_eq!(spots.upper, None);
    let spots = place_labels(area(10, 5, 0, 0), 1, false);
    assert_eq!(spots.main, None);
    assert_eq!(label_width("\u{23ce}"), 1);
    assert_eq!(label_width("Win"), 3);
}

#[test]
fn key_looks() {
    let hints = vec![(2, 0), (3, 0)];
    assert_eq!(key_look_at((2, 0), &hints, Some((2, 0))), KeyLook::Highlighted);
    assert_eq!(key_look_at((3, 0), &hints, Some((2, 0))), KeyLook::Hinted);
    assert_eq!(key_look_at((1, 1), &hints, None), KeyLook::Plain);
}

#[test]
fn clock() {
    assert_eq!(clock_parts(0), (0, 0));
    assert_eq!(clock_parts(61_999), (1, 1));
    assert_eq!(clock_parts(3_600_000), (60, 0));
}

#[test]
fn marks_follow_the_state() {
    let grid = build_keycode_grid_map(&build_keyboard_rows(KeyboardLayout::Qwerty, Platform::Pc));
    let mut app = App::new();
    app.document = Some(Document::from_text("Hi").unwrap());
    let marks = keyboard_marks(&app, &grid);
    assert_eq!(marks.hints, vec![(2, 5), (3, 0)]);
    assert_eq!(marks.highlight, None);
    app.handle_event(InputEvent::Press(KeyEvent::new(KeyCode::Char('x'), KeyModifiers::none())), 0);
    let marks = keyboard_marks(&app, &grid);
    assert_eq!(marks.highlight, Some((3, 2)));
    assert!(!marks.highlight_correct);
}

#[test]
fn text_panel_contents() {
    let mut app = App::new();
    assert!(matches!(text_panel(&app), TextPanel::Menu));
    assert_eq!(panel_height(&app), 24);
    app.document = Some(Document::from_text("abc\n\ndef\nghi\njkl").unwrap());
    assert_eq!(panel_height(&app), 7);
    let press = |app: &mut App, c: char| {
        app.handle_event(InputEvent::Press(KeyEvent::new(KeyCode::Char(c), KeyModifiers::none())), 0)
    };
    press(&mut app, 'a');
    match text_panel(&app) {
        TextPanel::Typing(t) => {
            assert_eq!(t.done, "a");
            assert_eq!(t.wrong, None);
            assert_eq!(t.cursor, Some('b'));
            assert_eq!(t.rest, "c");
            assert_eq!(t.upcoming, vec!["def".to_string(), "ghi".to_string()]);
        }
        _ => panic!("expected the typing line"),
    }
    press(&mut app, 'x');
    match text_panel(&app) {
        TextPanel::Typing(t) => {
            assert_eq!(t.done, "a");
            assert_eq!(t.wrong, Some('x'));
            assert_eq!(t.cursor, Some('c'));
            assert_eq!(t.rest, "");
        }
        _ => panic!("expected the typing line"),
    }
    app.searching = true;
    assert!(matches!(text_panel(&app), TextPanel::Hidden));
}

#[test]
fn finished_panel_lists_weakest_keys() {
    let mut app = App::new();
    app.document = Some(Document::from_text("ab").unwrap());
    let press = |app: &mut App, code: KeyCode| {
        app.handle_event(InputEvent::Press(KeyEvent::new(code, KeyModifiers::none())), 0)
    };
    press(&mut app, KeyCode::Char('a'));
    press(&mut app, KeyCode::Char('z'));
    press(&mut app, KeyCode::Backspace);
    press(&mut app, KeyCode::Char('b'));
    match text_panel(&app) {
        TextPanel::Finished { correct, total, weakest } => {
            assert_eq!((correct, total), (2, 3));
            assert_eq!(weakest, vec![('b', 1, 1)]);
        }
        _ => panic!("expected the summary"),
    }
}

#[test]
fn regions_are_bands_of_the_screen() {
    let screen = area(0, 0, 200, 40);
    let r = compute_regions(screen);
    // the screen is cut to 120 columns, centred
    assert_eq!((r.header.x, r.header.width), (40, 120));
    assert_eq!((r.keyboard_area.x, r.keyboard_area.width), (40, 120));
    assert!(r.header.y + r.header.height <= r.keyboard_area.y);
    assert_eq!(r.text_area.y, r.search_area.y);
    assert_eq!(r.text_area.height, r.search_area.height);
    assert!(r.text_area.x >= 40 && r.text_area.x + r.text_area.width <= 160);
    let picked = regions_from_parts(
        &vec![area(0, 0, 9, 1), area(0, 1, 9, 2), area(0, 3, 9, 4)],
        &vec![area(1, 1, 7, 2)],
        &vec![area(2, 1, 5, 2)],
    );
    assert_eq!(picked.header, area(0, 0, 9, 1));
    assert_eq!(picked.keyboard_area, area(0, 3, 9, 4));
    assert_eq!(picked.text_area, area(1, 1, 7, 2));
    assert_eq!(picked.search_area, area(2, 1, 5, 2));
}

#[test]
fn panels_and_header_parts_stay_inside() {
    let body = area(10, 3, 80, 27);
    let panel = centered_panel(body, 7);
    assert_eq!((panel.x, panel.width), (10, 80));
    assert_eq!(panel.height, 7);
    assert!(panel.y >= 3 && panel.y + panel.height <= 30);
    let (l, c, r) = header_parts(area(0, 0, 100, 3));
    for p in [l, c, r] {
        assert_eq!((p.y, p.height), (0, 3));
        assert!(p.x + p.width <= 100);
    }
    assert_eq!(l.width, 30);
    assert_eq!(r.width, 30);
}

#[test]
fn key_sizes_follow_the_widths() {
    let rows = build_keyboard_rows(KeyboardLayout::Qwerty, Platform::Pc);
    let sizes = key_sizes(&rows, 120);
    assert_eq!(sizes.len(), 5);
    assert_eq!(sizes[0].len(), 13);
    assert_eq!(sizes[0][0], Size::Length(9));
    assert_eq!(sizes[2][11], Size::Length(13));
    assert_eq!(sizes[4][3], Size::Length(53));
}

#[test]
fn cells_of_a_row_share_their_rows() {
    let rows = build_keyboard_rows(KeyboardLayout::Dvorak, Platform::Mac);
    let kb = area(5, 30, 120, 20);
    let cells = build_keyboard_rects(kb, &rows);
    for (r, row) in cells.iter().enumerate() {
        assert_eq!(row.len(), rows[r].len());
        for cell in row {
            assert_eq!((cell.y, cell.height), (row[0].y, row[0].height));
            assert!(cell.x >= 5 && cell.x + cell.width <= 125);
            assert!(cell.y >= 30 && cell.y + cell.height <= 50);
        }
    }
}

#[test]
fn history_lists_newest_first_from_the_scroll() {
    assert_eq!(history_rows(0, 0, 10), Vec::<usize>::new());
    assert_eq!(history_rows(3, 2, 10), vec![2, 1, 0]);
    assert_eq!(history_rows(3, 0, 10), vec![0]);
    assert_eq!(history_rows(25, 24, 10), vec![24, 23, 22, 21, 20, 19, 18, 17, 16, 15]);
    assert_eq!(history_rows(25, 12, 10), vec![12, 11, 10, 9, 8, 7, 6, 5, 4, 3]);
    assert_eq!(history_rows(3, 9, 10), vec![2, 1, 0]);
}

#[test]
fn typing_line_cuts_by_characters() {
    let mut app = App::new();
    app.document = Some(Document::from_text("éab\nnext").unwrap());
    let press = |app: &mut App, c: char| {
        app.handle_event(InputEvent::Press(KeyEvent::new(KeyCode::Char(c), KeyModifiers::none())), 0)
    };
    press(&mut app, 'é');
    match text_panel(&app) {
        TextPanel::Typing(t) => {
            assert_eq!(t.done, "é");
            assert_eq!(t.cursor, Some('a'));
            assert_eq!(t.rest, "b");
        }
        _ => panic!("expected the typing line"),
    }
    press(&mut app, 'a');
    match text_panel(&app) {
        TextPanel::Typing(t) => {
            assert_eq!(t.done, "éa");
            assert_eq!(t.wrong, None);
            assert_eq!(t.cursor, Some('b'));
            assert_eq!(t.rest, "");
            assert_eq!(t.upcoming, vec!["next".to_string()]);
        }
        _ => panic!("expected the typing line"),
    }
    press(&mut app, 'x');
    match text_panel(&app) {
        TextPanel::Typing(t) => {
            assert_eq!(t.done, "éa");
            assert_eq!(t.wrong, Some('x'));
            assert_eq!(t.cursor, None);
        }
        _ => panic!("expected the typing line"),
    }
}
