use clavirio::keyboard::{
    build_keyboard_rows, build_keycode_grid_map, finger_for_coord, hint_coords, Finger, KeyWidth,
    Platform,
};
use clavirio::keys::{KeyCode, ModifierKeyCode};
use clavirio::settings::KeyboardLayout;

#[test]
fn grid_map_contains_primary_keys() {
    let rows = build_keyboard_rows(KeyboardLayout::Qwerty, Platform::Pc);
    let map = build_keycode_grid_map(&rows);
    // 'A' is in home row (row 2), first key (col 0)
    assert_eq!(map.get(&KeyCode::Char('A')), Some((2, 0)));
    // 'Q' is in top row (row 1), first key (col 0)
    assert_eq!(map.get(&KeyCode::Char('Q')), Some((1, 0)));
}

#[test]
fn grid_map_contains_secondary_keys() {
    let rows = build_keyboard_rows(KeyboardLayout::Qwerty, Platform::Pc);
    let map = build_keycode_grid_map(&rows);
    // '!' is secondary of '1', which is number row (row 0), col 0
    assert_eq!(map.get(&KeyCode::Char('!')), Some((0, 0)));
    // '@' is secondary of '2', row 0, col 1
    assert_eq!(map.get(&KeyCode::Char('@')), Some((0, 1)));
}

#[test]
fn grid_map_secondary_shares_coord_with_primary() {
    let rows = build_keyboard_rows(KeyboardLayout::Qwerty, Platform::Pc);
    let map = build_keycode_grid_map(&rows);
    // ';' and ':' should map to the same grid position
    let semi = map.get(&KeyCode::Char(';'));
    let colon = map.get(&KeyCode::Char(':'));
    assert!(semi.is_some());
    assert_eq!(semi, colon);
}

#[test]
fn grid_map_spacebar_mapped() {
    let rows = build_keyboard_rows(KeyboardLayout::Qwerty, Platform::Pc);
    let map = build_keycode_grid_map(&rows);
    assert!(map.contains_key(&KeyCode::Char(' ')));
}

// --- further cases ---

#[test]
fn rows_have_the_expected_shape() {
    for layout in [KeyboardLayout::Qwerty, KeyboardLayout::Dvorak, KeyboardLayout::Colemak] {
        for platform in [Platform::Mac, Platform::Pc] {
            let rows = build_keyboard_rows(layout, platform);
            let lens: Vec<usize> = rows.iter().map(|r| r.len()).collect();
            assert_eq!(lens, vec![13, 12, 12, 12, 7]);
            assert_eq!(rows[2][11].primary, KeyCode::Enter);
            assert_eq!(rows[2][11].width, KeyWidth::Wide);
            assert_eq!(rows[3][0].primary, KeyCode::Modifier(ModifierKeyCode::LeftShift));
            assert_eq!(rows[4][3].width, KeyWidth::Spacebar);
        }
    }
    let mac = build_keyboard_rows(KeyboardLayout::Qwerty, Platform::Mac);
    let pc = build_keyboard_rows(KeyboardLayout::Qwerty, Platform::Pc);
    assert_eq!(mac[4][1].primary, KeyCode::Modifier(ModifierKeyCode::LeftAlt));
    assert_eq!(pc[4][1].label, "Win");
}

#[test]
fn every_key_sits_at_its_own_position() {
    for layout in [KeyboardLayout::Qwerty, KeyboardLayout::Dvorak, KeyboardLayout::Colemak] {
        let rows = build_keyboard_rows(layout, Platform::Pc);
        let map = build_keycode_grid_map(&rows);
        for (r, row) in rows.iter().enumerate() {
            for (c, k) in row.iter().enumerate() {
                assert_eq!(map.get(&k.primary), Some((r, c)));
                if let Some(s) = k.secondary {
                    assert_eq!(map.get(&s), Some((r, c)));
                }
            }
        }
    }
}

#[test]
fn layout_specific_positions() {
    let dvorak = build_keycode_grid_map(&build_keyboard_rows(KeyboardLayout::Dvorak, Platform::Pc));
    assert_eq!(dvorak.get(&KeyCode::Char('U')), Some((2, 3)));
    let colemak = build_keycode_grid_map(&build_keyboard_rows(KeyboardLayout::Colemak, Platform::Pc));
    assert_eq!(colemak.get(&KeyCode::Char('T')), Some((2, 3)));
    assert_eq!(colemak.get(&KeyCode::Char('-')), Some((0, 10)));
    assert_eq!(dvorak.get(&KeyCode::Char('[')), Some((0, 10)));
}

#[test]
fn fingers_for_positions() {
    assert_eq!(finger_for_coord((2, 0)), Some(Finger::Pinky));
    assert_eq!(finger_for_coord((2, 3)), Some(Finger::Index));
    assert_eq!(finger_for_coord((1, 7)), Some(Finger::Middle));
    assert_eq!(finger_for_coord((0, 12)), Some(Finger::Pinky));
    assert_eq!(finger_for_coord((3, 1)), Some(Finger::Pinky));
    assert_eq!(finger_for_coord((3, 4)), Some(Finger::Index));
    assert_eq!(finger_for_coord((3, 9)), Some(Finger::Ring));
    assert_eq!(finger_for_coord((4, 3)), Some(Finger::Thumb));
    assert_eq!(finger_for_coord((5, 0)), None);
    assert_eq!(Finger::Index.label(), "I");
    assert_eq!(Finger::Thumb.label(), "T");
}

#[test]
fn hints_for_the_next_character() {
    let map = build_keycode_grid_map(&build_keyboard_rows(KeyboardLayout::Qwerty, Platform::Pc));
    assert_eq!(hint_coords(&map, Some('a')), vec![(2, 0)]);
    // upper case: the key and the left Shift
    assert_eq!(hint_coords(&map, Some('A')), vec![(2, 0), (3, 0)]);
    // a shifted symbol: Shift only, since the grid knows the symbol by itself
    assert_eq!(hint_coords(&map, Some('!')), vec![(0, 0), (3, 0)]);
    assert_eq!(hint_coords(&map, Some(' ')), vec![(4, 3)]);
    assert!(hint_coords(&map, None).is_empty());
    // a character off the keyboard
    assert!(hint_coords(&map, Some('é')).is_empty());
}

#[test]
fn grid_positions_hold_a_key_that_carries_them() {
    for layout in [KeyboardLayout::Qwerty, KeyboardLayout::Dvorak, KeyboardLayout::Colemak] {
        for platform in [Platform::Pc, Platform::Mac] {
            let rows = build_keyboard_rows(layout, platform);
            let map = build_keycode_grid_map(&rows);
            for c in ('A'..='Z').chain(['1', '!', ',', ';', ' '].into_iter()) {
                let code = KeyCode::Char(c);
                let on_keyboard = rows
                    .iter()
                    .any(|row| row.iter().any(|k| k.primary == code || k.secondary == Some(code)));
                match map.get(&code) {
                    Some((r, col)) => {
                        let k = &rows[r][col];
                        assert!(k.primary == code || k.secondary == Some(code));
                    }
                    None => assert!(!on_keyboard),
                }
            }
        }
    }
}
