//! The virtual keyboard: its rows of keys for each layout, the finger that
//! types each key, and where on the grid a key sits.
use vstd::prelude::*;

use crate::keys::{KeyCode, ModifierKeyCode};
use crate::settings::KeyboardLayout;

verus! {

/// How wide a key is drawn.
#[derive(Clone, Copy, Debug, PartialEq, Eq, Hash, Structural)]
pub enum KeyWidth {
    Normal,
    Wide,
    Spacebar,
}

/// A position on the keyboard grid: (row, column).
pub type GridCoord = (usize, usize);

/// One key of the virtual keyboard.
#[derive(Clone, Copy, Debug, PartialEq, Eq, Hash)]
pub struct KeyDef {
    /// The key pressed without Shift.
    pub primary: KeyCode,
    /// The character the key gives with Shift, where it is not the primary one.
    pub secondary: Option<KeyCode>,
    pub width: KeyWidth,
    pub label: &'static str,
}

/// The modifier row differs between Mac and PC keyboards.
#[derive(Clone, Copy, Debug, PartialEq, Eq, Structural)]
pub enum Platform {
    Mac,
    Pc,
}

/// A normal key without a shifted character.
pub open spec fn plain(c: char, label: &'static str) -> KeyDef {
    KeyDef { primary: KeyCode::Char(c), secondary: None, width: KeyWidth::Normal, label }
}

/// A normal key with a shifted character.
pub open spec fn shifted(c: char, s: char, label: &'static str) -> KeyDef {
    KeyDef {
        primary: KeyCode::Char(c),
        secondary: Some(KeyCode::Char(s)),
        width: KeyWidth::Normal,
        label,
    }
}

/// A wide key.
pub open spec fn wide(code: KeyCode, label: &'static str) -> KeyDef {
    KeyDef { primary: code, secondary: None, width: KeyWidth::Wide, label }
}

/// A normal-width modifier key.
pub open spec fn modifier(m: ModifierKeyCode, label: &'static str) -> KeyDef {
    KeyDef { primary: KeyCode::Modifier(m), secondary: None, width: KeyWidth::Normal, label }
}

/// The space bar.
pub open spec fn spacebar() -> KeyDef {
    KeyDef { primary: KeyCode::Char(' '), secondary: None, width: KeyWidth::Spacebar, label: "" }
}

fn plain_key(c: char, label: &'static str) -> (k: KeyDef)
    ensures
        k == plain(c, label),
{
    KeyDef { primary: KeyCode::Char(c), secondary: None, width: KeyWidth::Normal, label }
}

fn shifted_key(c: char, s: char, label: &'static str) -> (k: KeyDef)
    ensures
        k == shifted(c, s, label),
{
    KeyDef {
        primary: KeyCode::Char(c),
        secondary: Some(KeyCode::Char(s)),
        width: KeyWidth::Normal,
        label,
    }
}

fn wide_key(code: KeyCode, label: &'static str) -> (k: KeyDef)
    ensures
        k == wide(code, label),
{
    KeyDef { primary: code, secondary: None, width: KeyWidth::Wide, label }
}

fn modifier_key(m: ModifierKeyCode, label: &'static str) -> (k: KeyDef)
    ensures
        k == modifier(m, label),
{
    KeyDef { primary: KeyCode::Modifier(m), secondary: None, width: KeyWidth::Normal, label }
}

fn spacebar_key() -> (k: KeyDef)
    ensures
        k == spacebar(),
{
    KeyDef { primary: KeyCode::Char(' '), secondary: None, width: KeyWidth::Spacebar, label: "" }
}

// --- The rows, as data ---

/// The number row of QWERTY and Colemak.
pub open spec fn qwerty_number_row() -> Seq<KeyDef> {
    seq![
        shifted('1', '!', "1"), shifted('2', '@', "2"), shifted('3', '#', "3"),
        shifted('4', '$', "4"), shifted('5', '%', "5"), shifted('6', '^', "6"),
        shifted('7', '&', "7"), shifted('8', '*', "8"), shifted('9', '(', "9"),
        shifted('0', ')', "0"), shifted('-', '_', "-"), shifted('=', '+', "="),
        shifted('\\', '|', "\\"),
    ]
}

pub open spec fn qwerty_top_row() -> Seq<KeyDef> {
    seq![
        plain('Q', "Q"), plain('W', "W"), plain('E', "E"), plain('R', "R"), plain('T', "T"),
        plain('Y', "Y"), plain('U', "U"), plain('I', "I"), plain('O', "O"), plain('P', "P"),
        shifted('[', '{', "["), shifted(']', '}', "]"),
    ]
}

pub open spec fn qwerty_home_row() -> Seq<KeyDef> {
    seq![
        plain('A', "A"), plain('S', "S"), plain('D', "D"), plain('F', "F"), plain('G', "G"),
        plain('H', "H"), plain('J', "J"), plain('K', "K"), plain('L', "L"),
        shifted(';', ':', ";"), shifted('\'', '"', "'"), wide(KeyCode::Enter, "\u{23ce}"),
    ]
}

pub open spec fn qwerty_bottom_row() -> Seq<KeyDef> {
    seq![
        wide(KeyCode::Modifier(ModifierKeyCode::LeftShift), "\u{21e7}"),
        plain('Z', "Z"), plain('X', "X"), plain('C', "C"), plain('V', "V"), plain('B', "B"),
        plain('N', "N"), plain('M', "M"), shifted(',', '<', ","), shifted('.', '>', "."),
        shifted('/', '?', "/"),
        wide(KeyCode::Modifier(ModifierKeyCode::RightShift), "\u{21e7}"),
    ]
}

pub open spec fn dvorak_number_row() -> Seq<KeyDef> {
    seq![
        shifted('1', '!', "1"), shifted('2', '@', "2"), shifted('3', '#', "3"),
        shifted('4', '$', "4"), shifted('5', '%', "5"), shifted('6', '^', "6"),
        shifted('7', '&', "7"), shifted('8', '*', "8"), shifted('9', '(', "9"),
        shifted('0', ')', "0"), shifted('[', '{', "["), shifted(']', '}', "]"),
        shifted('\\', '|', "\\"),
    ]
}

pub open spec fn dvorak_top_row() -> Seq<KeyDef> {
    seq![
        shifted('\'', '"', "'"), shifted(',', '<', ","), shifted('.', '>', "."),
        plain('P', "P"), plain('Y', "Y"), plain('F', "F"), plain('G', "G"), plain('C', "C"),
        plain('R', "R"), plain('L', "L"), shifted('/', '?', "/"), shifted('=', '+', "="),
    ]
}

pub open spec fn dvorak_home_row() -> Seq<KeyDef> {
    seq![
        plain('A', "A"), plain('O', "O"), plain('E', "E"), plain('U', "U"), plain('I', "I"),
        plain('D', "D"), plain('H', "H"), plain('T', "T"), plain('N', "N"), plain('S', "S"),
        shifted('-', '_', "-"), wide(KeyCode::Enter, "\u{23ce}"),
    ]
}

pub open spec fn dvorak_bottom_row() -> Seq<KeyDef> {
    seq![
        wide(KeyCode::Modifier(ModifierKeyCode::LeftShift), "\u{21e7}"),
        shifted(';', ':', ";"), plain('Q', "Q"), plain('J', "J"), plain('K', "K"),
        plain('X', "X"), plain('B', "B"), plain('M', "M"), plain('W', "W"), plain('V', "V"),
        plain('Z', "Z"),
        wide(KeyCode::Modifier(ModifierKeyCode::RightShift), "\u{21e7}"),
    ]
}

pub open spec fn colemak_top_row() -> Seq<KeyDef> {
    seq![
        plain('Q', "Q"), plain('W', "W"), plain('F', "F"), plain('P', "P"), plain('G', "G"),
        plain('J', "J"), plain('L', "L"), plain('U', "U"), plain('Y', "Y"),
        shifted(';', ':', ";"), shifted('[', '{', "["), shifted(']', '}', "]"),
    ]
}

pub open spec fn colemak_home_row() -> Seq<KeyDef> {
    seq![
        plain('A', "A"), plain('R', "R"), plain('S', "S"), plain('T', "T"), plain('D', "D"),
        plain('H', "H"), plain('N', "N"), plain('E', "E"), plain('I', "I"), plain('O', "O"),
        shifted('\'', '"', "'"), wide(KeyCode::Enter, "\u{23ce}"),
    ]
}

pub open spec fn colemak_bottom_row() -> Seq<KeyDef> {
    seq![
        wide(KeyCode::Modifier(ModifierKeyCode::LeftShift), "\u{21e7}"),
        plain('Z', "Z"), plain('X', "X"), plain('C', "C"), plain('V', "V"), plain('B', "B"),
        plain('K', "K"), plain('M', "M"), shifted(',', '<', ","), shifted('.', '>', "."),
        shifted('/', '?', "/"),
        wide(KeyCode::Modifier(ModifierKeyCode::RightShift), "\u{21e7}"),
    ]
}

/// The bottom row of modifiers around the space bar.
pub open spec fn modifier_row(platform: Platform) -> Seq<KeyDef> {
    match platform {
        Platform::Mac => seq![
            modifier(ModifierKeyCode::LeftControl, "\u{2303}"),
            modifier(ModifierKeyCode::LeftAlt, "\u{2325}"),
            modifier(ModifierKeyCode::LeftSuper, "\u{2318}"),
            spacebar(),
            modifier(ModifierKeyCode::RightSuper, "\u{2318}"),
            modifier(ModifierKeyCode::RightAlt, "\u{2325}"),
            modifier(ModifierKeyCode::RightControl, "\u{2303}"),
        ],
        Platform::Pc => seq![
            modifier(ModifierKeyCode::LeftControl, "\u{2303}"),
            modifier(ModifierKeyCode::LeftSuper, "Win"),
            modifier(ModifierKeyCode::LeftAlt, "Alt"),
            spacebar(),
            modifier(ModifierKeyCode::RightAlt, "Alt"),
            modifier(ModifierKeyCode::RightSuper, "Win"),
            modifier(ModifierKeyCode::RightControl, "\u{2303}"),
        ],
    }
}

/// The five rows of the keyboard of a layout, top to bottom.
pub open spec fn keyboard_rows(layout: KeyboardLayout, platform: Platform) -> Seq<Seq<KeyDef>> {
    match layout {
        KeyboardLayout::Qwerty => seq![
            qwerty_number_row(),
            qwerty_top_row(),
            qwerty_home_row(),
            qwerty_bottom_row(),
            modifier_row(platform),
        ],
        KeyboardLayout::Dvorak => seq![
            dvorak_number_row(),
            dvorak_top_row(),
            dvorak_home_row(),
            dvorak_bottom_row(),
            modifier_row(platform),
        ],
        KeyboardLayout::Colemak => seq![
            qwerty_number_row(),
            colemak_top_row(),
            colemak_home_row(),
            colemak_bottom_row(),
            modifier_row(platform),
        ],
    }
}

/// The view of a grid of keys.
pub open spec fn rows_view(rows: Seq<Vec<KeyDef>>) -> Seq<Seq<KeyDef>> {
    rows.map_values(|r: Vec<KeyDef>| r@)
}

fn number_row(layout: KeyboardLayout) -> (row: Vec<KeyDef>)
    ensures
        row@ == keyboard_rows(layout, Platform::Pc)[0],
{
    match layout {
        KeyboardLayout::Dvorak => vec![
            shifted_key('1', '!', "1"), shifted_key('2', '@', "2"), shifted_key('3', '#', "3"),
            shifted_key('4', '$', "4"), shifted_key('5', '%', "5"), shifted_key('6', '^', "6"),
            shifted_key('7', '&', "7"), shifted_key('8', '*', "8"), shifted_key('9', '(', "9"),
            shifted_key('0', ')', "0"), shifted_key('[', '{', "["), shifted_key(']', '}', "]"),
            shifted_key('\\', '|', "\\"),
        ],
        _ => vec![
            shifted_key('1', '!', "1"), shifted_key('2', '@', "2"), shifted_key('3', '#', "3"),
            shifted_key('4', '$', "4"), shifted_key('5', '%', "5"), shifted_key('6', '^', "6"),
            shifted_key('7', '&', "7"), shifted_key('8', '*', "8"), shifted_key('9', '(', "9"),
            shifted_key('0', ')', "0"), shifted_key('-', '_', "-"), shifted_key('=', '+', "="),
            shifted_key('\\', '|', "\\"),
        ],
    }
}

fn top_row(layout: KeyboardLayout) -> (row: Vec<KeyDef>)
    ensures
        row@ == keyboard_rows(layout, Platform::Pc)[1],
{
    match layout {
        KeyboardLayout::Qwerty => vec![
            plain_key('Q', "Q"), plain_key('W', "W"), plain_key('E', "E"), plain_key('R', "R"),
            plain_key('T', "T"), plain_key('Y', "Y"), plain_key('U', "U"), plain_key('I', "I"),
            plain_key('O', "O"), plain_key('P', "P"), shifted_key('[', '{', "["),
            shifted_key(']', '}', "]"),
        ],
        KeyboardLayout::Dvorak => vec![
            shifted_key('\'', '"', "'"), shifted_key(',', '<', ","), shifted_key('.', '>', "."),
            plain_key('P', "P"), plain_key('Y', "Y"), plain_key('F', "F"), plain_key('G', "G"),
            plain_key('C', "C"), plain_key('R', "R"), plain_key('L', "L"),
            shifted_key('/', '?', "/"), shifted_key('=', '+', "="),
        ],
        KeyboardLayout::Colemak => vec![
            plain_key('Q', "Q"), plain_key('W', "W"), plain_key('F', "F"), plain_key('P', "P"),
            plain_key('G', "G"), plain_key('J', "J"), plain_key('L', "L"), plain_key('U', "U"),
            plain_key('Y', "Y"), shifted_key(';', ':', ";"), shifted_key('[', '{', "["),
            shifted_key(']', '}', "]"),
        ],
    }
}

fn home_row(layout: KeyboardLayout) -> (row: Vec<KeyDef>)
    ensures
        row@ == keyboard_rows(layout, Platform::Pc)[2],
{
    match layout {
        KeyboardLayout::Qwerty => vec![
            plain_key('A', "A"), plain_key('S', "S"), plain_key('D', "D"), plain_key('F', "F"),
            plain_key('G', "G"), plain_key('H', "H"), plain_key('J', "J"), plain_key('K', "K"),
            plain_key('L', "L"), shifted_key(';', ':', ";"), shifted_key('\'', '"', "'"),
            wide_key(KeyCode::Enter, "\u{23ce}"),
        ],
        KeyboardLayout::Dvorak => vec![
            plain_key('A', "A"), plain_key('O', "O"), plain_key('E', "E"), plain_key('U', "U"),
            plain_key('I', "I"), plain_key('D', "D"), plain_key('H', "H"), plain_key('T', "T"),
            plain_key('N', "N"), plain_key('S', "S"), shifted_key('-', '_', "-"),
            wide_key(KeyCode::Enter, "\u{23ce}"),
        ],
        KeyboardLayout::Colemak => vec![
            plain_key('A', "A"), plain_key('R', "R"), plain_key('S', "S"), plain_key('T', "T"),
            plain_key('D', "D"), plain_key('H', "H"), plain_key('N', "N"), plain_key('E', "E"),
            plain_key('I', "I"), plain_key('O', "O"), shifted_key('\'', '"', "'"),
            wide_key(KeyCode::Enter, "\u{23ce}"),
        ],
    }
}

fn bottom_row(layout: KeyboardLayout) -> (row: Vec<KeyDef>)
    ensures
        row@ == keyboard_rows(layout, Platform::Pc)[3],
{
    match layout {
        KeyboardLayout::Qwerty => vec![
            wide_key(KeyCode::Modifier(ModifierKeyCode::LeftShift), "\u{21e7}"),
            plain_key('Z', "Z"), plain_key('X', "X"), plain_key('C', "C"), plain_key('V', "V"),
            plain_key('B', "B"), plain_key('N', "N"), plain_key('M', "M"),
            shifted_key(',', '<', ","), shifted_key('.', '>', "."), shifted_key('/', '?', "/"),
            wide_key(KeyCode::Modifier(ModifierKeyCode::RightShift), "\u{21e7}"),
        ],
        KeyboardLayout::Dvorak => vec![
            wide_key(KeyCode::Modifier(ModifierKeyCode::LeftShift), "\u{21e7}"),
            shifted_key(';', ':', ";"), plain_key('Q', "Q"), plain_key('J', "J"),
            plain_key('K', "K"), plain_key('X', "X"), plain_key('B', "B"), plain_key('M', "M"),
            plain_key('W', "W"), plain_key('V', "V"), plain_key('Z', "Z"),
            wide_key(KeyCode::Modifier(ModifierKeyCode::RightShift), "\u{21e7}"),
        ],
        KeyboardLayout::Colemak => vec![
            wide_key(KeyCode::Modifier(ModifierKeyCode::LeftShift), "\u{21e7}"),
            plain_key('Z', "Z"), plain_key('X', "X"), plain_key('C', "C"), plain_key('V', "V"),
            plain_key('B', "B"), plain_key('K', "K"), plain_key('M', "M"),
            shifted_key(',', '<', ","), shifted_key('.', '>', "."), shifted_key('/', '?', "/"),
            wide_key(KeyCode::Modifier(ModifierKeyCode::RightShift), "\u{21e7}"),
        ],
    }
}

fn build_modifier_row(platform: Platform) -> (row: Vec<KeyDef>)
    ensures
        row@ == modifier_row(platform),
{
    match platform {
        Platform::Mac => vec![
            modifier_key(ModifierKeyCode::LeftControl, "\u{2303}"),
            modifier_key(ModifierKeyCode::LeftAlt, "\u{2325}"),
            modifier_key(ModifierKeyCode::LeftSuper, "\u{2318}"),
            spacebar_key(),
            modifier_key(ModifierKeyCode::RightSuper, "\u{2318}"),
            modifier_key(ModifierKeyCode::RightAlt, "\u{2325}"),
            modifier_key(ModifierKeyCode::RightControl, "\u{2303}"),
        ],
        Platform::Pc => vec![
            modifier_key(ModifierKeyCode::LeftControl, "\u{2303}"),
            modifier_key(ModifierKeyCode::LeftSuper, "Win"),
            modifier_key(ModifierKeyCode::LeftAlt, "Alt"),
            spacebar_key(),
            modifier_key(ModifierKeyCode::RightAlt, "Alt"),
            modifier_key(ModifierKeyCode::RightSuper, "Win"),
            modifier_key(ModifierKeyCode::RightControl, "\u{2303}"),
        ],
    }
}

/// The rows of keys of a layout (see [`keyboard_rows`]).
pub fn build_keyboard_rows(layout: KeyboardLayout, platform: Platform) -> (rows: Vec<Vec<KeyDef>>)
    ensures
        rows_view(rows@) == keyboard_rows(layout, platform),
{
    let rows = vec![
        number_row(layout),
        top_row(layout),
        home_row(layout),
        bottom_row(layout),
        build_modifier_row(platform),
    ];
    assert(rows_view(rows@) =~= keyboard_rows(layout, platform));
    rows
}

/// A finger of either hand.
#[derive(Clone, Copy, Debug, PartialEq, Eq, Structural)]
pub enum Finger {
    Pinky,
    Ring,
    Middle,
    Index,
    Thumb,
}

/// The letter that names a finger on the keyboard.
pub open spec fn finger_letter(f: Finger) -> Seq<char> {
    match f {
        Finger::Pinky => "P"@,
        Finger::Ring => "R"@,
        Finger::Middle => "M"@,
        Finger::Index => "I"@,
        Finger::Thumb => "T"@,
    }
}

impl Finger {
    /// The letter that names the finger (see [`finger_letter`]).
    pub fn label(self) -> (l: &'static str)
        ensures
            l@ == finger_letter(self),
    {
        match self {
            Finger::Pinky => "P",
            Finger::Ring => "R",
            Finger::Middle => "M",
            Finger::Index => "I",
            Finger::Thumb => "T",
        }
    }
}

/// The finger for a column of a row that does not start with a wide key:
/// pinky, ring, middle, four index columns, middle, ring, then pinky.
pub open spec fn column_finger(col: int) -> Finger {
    if col == 0 {
        Finger::Pinky
    } else if col == 1 {
        Finger::Ring
    } else if col == 2 {
        Finger::Middle
    } else if 3 <= col <= 6 {
        Finger::Index
    } else if col == 7 {
        Finger::Middle
    } else if col == 8 {
        Finger::Ring
    } else {
        Finger::Pinky
    }
}

/// No column is typed with a thumb, and the ten columns from the left edge
/// mirror each other: the left hand's fingers in one half, the right hand's
/// in the other.
pub proof fn lemma_column_fingers_mirror(col: int)
    ensures
        column_finger(col) != Finger::Thumb,
        0 <= col <= 9 ==> column_finger(col) == column_finger(9 - col),
{
}

/// The finger for a grid position: the number, top and home rows follow
/// [`column_finger`]; the bottom row starts with Shift, which moves its
/// letters one column right; the modifier row is typed with the thumbs.
pub open spec fn coord_finger(row: int, col: int) -> Option<Finger> {
    if row <= 2 {
        Some(column_finger(col))
    } else if row == 3 {
        if col <= 1 {
            Some(Finger::Pinky)
        } else {
            Some(column_finger(col - 1))
        }
    } else if row == 4 {
        Some(Finger::Thumb)
    } else {
        None
    }
}

/// The finger for a column (see [`column_finger`]).
fn finger_for_col(col: usize) -> (f: Finger)
    ensures
        f == column_finger(col as int),
{
    match col {
        0 => Finger::Pinky,
        1 => Finger::Ring,
        2 => Finger::Middle,
        3 | 4 => Finger::Index,
        5 | 6 => Finger::Index,
        7 => Finger::Middle,
        8 => Finger::Ring,
        _ => Finger::Pinky,
    }
}

/// The finger for a key at a grid position (see [`coord_finger`]); there is
/// one exactly for the five rows of the keyboard.
pub fn finger_for_coord(coord: GridCoord) -> (f: Option<Finger>)
    ensures
        f == coord_finger(coord.0 as int, coord.1 as int),
        f is Some <==> coord.0 <= 4,
{
    let (row, col) = coord;
    match row {
        0..=2 => Some(finger_for_col(col)),
        3 => match col {
            0 | 1 => Some(Finger::Pinky),
            2 => Some(Finger::Ring),
            3 => Some(Finger::Middle),
            4 | 5 => Some(Finger::Index),
            6 | 7 => Some(Finger::Index),
            8 => Some(Finger::Middle),
            9 => Some(Finger::Ring),
            _ => Some(Finger::Pinky),
        },
        4 => Some(Finger::Thumb),
        _ => None,
    }
}

// --- The shape of the keyboards ---

/// Whether two keys show a key code in common (or, for one key, whether it
/// shows the same code twice).
pub open spec fn clash(a: KeyDef, b: KeyDef) -> bool {
    ||| a.primary == b.primary
    ||| b.secondary == Some(a.primary)
    ||| a.secondary == Some(b.primary)
    ||| (a.secondary is Some && a.secondary == b.secondary)
}

/// Whether each key of a row shows each of its codes once, and no two keys
/// of it share a code.
pub open spec fn row_codes_distinct(row: Seq<KeyDef>) -> bool {
    &&& forall|c: int| 0 <= c < row.len() ==> (#[trigger] row[c]).secondary != Some(row[c].primary)
    &&& forall|c1: int, c2: int| 0 <= c1 < c2 < row.len() ==> !clash(#[trigger] row[c1], #[trigger] row[c2])
}

/// Whether no key of one row shares a code with a key of the other.
pub open spec fn rows_apart(a: Seq<KeyDef>, b: Seq<KeyDef>) -> bool {
    forall|c1: int, c2: int| 0 <= c1 < a.len() && 0 <= c2 < b.len() ==> !clash(#[trigger] a[c1], #[trigger] b[c2])
}

/// Whether no key code stands on two keys of `rows`, nor twice on one key.
pub open spec fn codes_unique(rows: Seq<Seq<KeyDef>>) -> bool {
    &&& forall|r: int, c: int|
        0 <= r < rows.len() && 0 <= c < rows[r].len() ==> (#[trigger] rows[r][c]).secondary != Some(rows[r][c].primary)
    &&& forall|r1: int, c1: int, r2: int, c2: int, code: KeyCode|
        0 <= r1 < rows.len() && 0 <= c1 < rows[r1].len() && 0 <= r2 < rows.len() && 0 <= c2 < rows[r2].len()
            && #[trigger] carries(rows[r1][c1], code) && #[trigger] carries(rows[r2][c2], code) ==> r1 == r2 && c1 == c2
}

proof fn lemma_codes_unique_from_rows(rows: Seq<Seq<KeyDef>>)
    requires
        forall|r: int| 0 <= r < rows.len() ==> row_codes_distinct(#[trigger] rows[r]),
        forall|r1: int, r2: int| 0 <= r1 < r2 < rows.len() ==> rows_apart(#[trigger] rows[r1], #[trigger] rows[r2]),
    ensures
        codes_unique(rows),
{
    assert forall|r: int, c: int| 0 <= r < rows.len() && 0 <= c < rows[r].len() implies (#[trigger] rows[r][c]).secondary
        != Some(rows[r][c].primary) by {
        assert(row_codes_distinct(rows[r]));
    }
    assert forall|r1: int, c1: int, r2: int, c2: int, code: KeyCode|
        0 <= r1 < rows.len() && 0 <= c1 < rows[r1].len() && 0 <= r2 < rows.len() && 0 <= c2 < rows[r2].len()
            && #[trigger] carries(rows[r1][c1], code) && #[trigger] carries(rows[r2][c2], code) implies r1 == r2 && c1 == c2 by {
        let k1 = rows[r1][c1];
        let k2 = rows[r2][c2];
        assert(clash(k1, k2) && clash(k2, k1));
        if r1 < r2 {
            assert(rows_apart(rows[r1], rows[r2]));
        } else if r2 < r1 {
            assert(rows_apart(rows[r2], rows[r1]));
        } else {
            assert(row_codes_distinct(rows[r1]));
        }
    }
}

proof fn lemma_qwerty_number_row_apart(platform: Platform)
    ensures
        row_codes_distinct(qwerty_number_row()),
        rows_apart(qwerty_number_row(), qwerty_top_row()),
        rows_apart(qwerty_number_row(), qwerty_home_row()),
        rows_apart(qwerty_number_row(), qwerty_bottom_row()),
        rows_apart(qwerty_number_row(), modifier_row(platform)),
{
}

proof fn lemma_qwerty_top_row_apart(platform: Platform)
    ensures
        row_codes_distinct(qwerty_top_row()),
        rows_apart(qwerty_top_row(), qwerty_home_row()),
        rows_apart(qwerty_top_row(), qwerty_bottom_row()),
        rows_apart(qwerty_top_row(), modifier_row(platform)),
{
}

proof fn lemma_qwerty_home_row_apart(platform: Platform)
    ensures
        row_codes_distinct(qwerty_home_row()),
        rows_apart(qwerty_home_row(), qwerty_bottom_row()),
        rows_apart(qwerty_home_row(), modifier_row(platform)),
{
}

proof fn lemma_qwerty_bottom_row_apart(platform: Platform)
    ensures
        row_codes_distinct(qwerty_bottom_row()),
        rows_apart(qwerty_bottom_row(), modifier_row(platform)),
{
}

proof fn lemma_dvorak_number_row_apart(platform: Platform)
    ensures
        row_codes_distinct(dvorak_number_row()),
        rows_apart(dvorak_number_row(), dvorak_top_row()),
        rows_apart(dvorak_number_row(), dvorak_home_row()),
        rows_apart(dvorak_number_row(), dvorak_bottom_row()),
        rows_apart(dvorak_number_row(), modifier_row(platform)),
{
}

proof fn lemma_dvorak_top_row_apart(platform: Platform)
    ensures
        row_codes_distinct(dvorak_top_row()),
        rows_apart(dvorak_top_row(), dvorak_home_row()),
        rows_apart(dvorak_top_row(), dvorak_bottom_row()),
        rows_apart(dvorak_top_row(), modifier_row(platform)),
{
}

proof fn lemma_dvorak_home_row_apart(platform: Platform)
    ensures
        row_codes_distinct(dvorak_home_row()),
        rows_apart(dvorak_home_row(), dvorak_bottom_row()),
        rows_apart(dvorak_home_row(), modifier_row(platform)),
{
}

proof fn lemma_dvorak_bottom_row_apart(platform: Platform)
    ensures
        row_codes_distinct(dvorak_bottom_row()),
        rows_apart(dvorak_bottom_row(), modifier_row(platform)),
{
}

proof fn lemma_colemak_number_row_apart(platform: Platform)
    ensures
        row_codes_distinct(qwerty_number_row()),
        rows_apart(qwerty_number_row(), colemak_top_row()),
        rows_apart(qwerty_number_row(), colemak_home_row()),
        rows_apart(qwerty_number_row(), colemak_bottom_row()),
        rows_apart(qwerty_number_row(), modifier_row(platform)),
{
}

proof fn lemma_colemak_top_row_apart(platform: Platform)
    ensures
        row_codes_distinct(colemak_top_row()),
        rows_apart(colemak_top_row(), colemak_home_row()),
        rows_apart(colemak_top_row(), colemak_bottom_row()),
        rows_apart(colemak_top_row(), modifier_row(platform)),
{
}

proof fn lemma_colemak_home_row_apart(platform: Platform)
    ensures
        row_codes_distinct(colemak_home_row()),
        rows_apart(colemak_home_row(), colemak_bottom_row()),
        rows_apart(colemak_home_row(), modifier_row(platform)),
{
}

proof fn lemma_colemak_bottom_row_apart(platform: Platform)
    ensures
        row_codes_distinct(colemak_bottom_row()),
        rows_apart(colemak_bottom_row(), modifier_row(platform)),
{
}

proof fn lemma_modifier_row_apart(platform: Platform)
    ensures
        row_codes_distinct(modifier_row(platform)),
{
}

proof fn lemma_rows_distinct(layout: KeyboardLayout, platform: Platform)
    ensures
        codes_unique(keyboard_rows(layout, platform)),
{
    let rows = keyboard_rows(layout, platform);
    lemma_modifier_row_apart(platform);
    match layout {
        KeyboardLayout::Qwerty => {
            lemma_qwerty_number_row_apart(platform);
            lemma_qwerty_top_row_apart(platform);
            lemma_qwerty_home_row_apart(platform);
            lemma_qwerty_bottom_row_apart(platform);
        },
        KeyboardLayout::Dvorak => {
            lemma_dvorak_number_row_apart(platform);
            lemma_dvorak_top_row_apart(platform);
            lemma_dvorak_home_row_apart(platform);
            lemma_dvorak_bottom_row_apart(platform);
        },
        KeyboardLayout::Colemak => {
            lemma_colemak_number_row_apart(platform);
            lemma_colemak_top_row_apart(platform);
            lemma_colemak_home_row_apart(platform);
            lemma_colemak_bottom_row_apart(platform);
        },
    }
    assert forall|r: int| 0 <= r < rows.len() implies row_codes_distinct(#[trigger] rows[r]) by {
        if r == 0 {
        } else if r == 1 {
        } else if r == 2 {
        } else if r == 3 {
        } else {
        }
    }
    assert forall|r1: int, r2: int| 0 <= r1 < r2 < rows.len() implies rows_apart(#[trigger] rows[r1], #[trigger] rows[r2]) by {
        if r1 == 0 && r2 == 1 {
        } else if r1 == 0 && r2 == 2 {
        } else if r1 == 0 && r2 == 3 {
        } else if r1 == 0 && r2 == 4 {
        } else if r1 == 1 && r2 == 2 {
        } else if r1 == 1 && r2 == 3 {
        } else if r1 == 1 && r2 == 4 {
        } else if r1 == 2 && r2 == 3 {
        } else if r1 == 2 && r2 == 4 {
        } else {
        }
    }
    lemma_codes_unique_from_rows(rows);
}

/// Whether some key of `rows` has `ch` as its main character.
pub open spec fn has_letter(rows: Seq<Seq<KeyDef>>, ch: char) -> bool {
    exists|r: int, c: int| 0 <= r < rows.len() && 0 <= c < rows[r].len() && (#[trigger] rows[r][c]).primary == KeyCode::Char(ch)
}

proof fn lemma_all_letters(layout: KeyboardLayout, platform: Platform)
    ensures
        forall|ch: char| 'A' <= ch <= 'Z' ==> has_letter(keyboard_rows(layout, platform), ch),
{
    let rows = keyboard_rows(layout, platform);
    match layout {
        KeyboardLayout::Qwerty => {
            assert forall|ch: char| 'A' <= ch <= 'Z' implies has_letter(rows, ch) by {
                if ch == 'A' {
                    assert(rows[2][0].primary == KeyCode::Char('A'));
                } else if ch == 'B' {
                    assert(rows[3][5].primary == KeyCode::Char('B'));
                } else if ch == 'C' {
                    assert(rows[3][3].primary == KeyCode::Char('C'));
                } else if ch == 'D' {
                    assert(rows[2][2].primary == KeyCode::Char('D'));
                } else if ch == 'E' {
                    assert(rows[1][2].primary == KeyCode::Char('E'));
                } else if ch == 'F' {
                    assert(rows[2][3].primary == KeyCode::Char('F'));
                } else if ch == 'G' {
                    assert(rows[2][4].primary == KeyCode::Char('G'));
                } else if ch == 'H' {
                    assert(rows[2][5].primary == KeyCode::Char('H'));
                } else if ch == 'I' {
                    assert(rows[1][7].primary == KeyCode::Char('I'));
                } else if ch == 'J' {
                    assert(rows[2][6].primary == KeyCode::Char('J'));
                } else if ch == 'K' {
                    assert(rows[2][7].primary == KeyCode::Char('K'));
                } else if ch == 'L' {
                    assert(rows[2][8].primary == KeyCode::Char('L'));
                } else if ch == 'M' {
                    assert(rows[3][7].primary == KeyCode::Char('M'));
                } else if ch == 'N' {
                    assert(rows[3][6].primary == KeyCode::Char('N'));
                } else if ch == 'O' {
                    assert(rows[1][8].primary == KeyCode::Char('O'));
                } else if ch == 'P' {
                    assert(rows[1][9].primary == KeyCode::Char('P'));
                } else if ch == 'Q' {
                    assert(rows[1][0].primary == KeyCode::Char('Q'));
                } else if ch == 'R' {
                    assert(rows[1][3].primary == KeyCode::Char('R'));
                } else if ch == 'S' {
                    assert(rows[2][1].primary == KeyCode::Char('S'));
                } else if ch == 'T' {
                    assert(rows[1][4].primary == KeyCode::Char('T'));
                } else if ch == 'U' {
                    assert(rows[1][6].primary == KeyCode::Char('U'));
                } else if ch == 'V' {
                    assert(rows[3][4].primary == KeyCode::Char('V'));
                } else if ch == 'W' {
                    assert(rows[1][1].primary == KeyCode::Char('W'));
                } else if ch == 'X' {
                    assert(rows[3][2].primary == KeyCode::Char('X'));
                } else if ch == 'Y' {
                    assert(rows[1][5].primary == KeyCode::Char('Y'));
                } else {
                    assert(rows[3][1].primary == KeyCode::Char('Z'));
                }
            }
        },
        KeyboardLayout::Dvorak => {
            assert forall|ch: char| 'A' <= ch <= 'Z' implies has_letter(rows, ch) by {
                if ch == 'A' {
                    assert(rows[2][0].primary == KeyCode::Char('A'));
                } else if ch == 'B' {
                    assert(rows[3][6].primary == KeyCode::Char('B'));
                } else if ch == 'C' {
                    assert(rows[1][7].primary == KeyCode::Char('C'));
                } else if ch == 'D' {
                    assert(rows[2][5].primary == KeyCode::Char('D'));
                } else if ch == 'E' {
                    assert(rows[2][2].primary == KeyCode::Char('E'));
                } else if ch == 'F' {
                    assert(rows[1][5].primary == KeyCode::Char('F'));
                } else if ch == 'G' {
                    assert(rows[1][6].primary == KeyCode::Char('G'));
                } else if ch == 'H' {
                    assert(rows[2][6].primary == KeyCode::Char('H'));
                } else if ch == 'I' {
                    assert(rows[2][4].primary == KeyCode::Char('I'));
                } else if ch == 'J' {
                    assert(rows[3][3].primary == KeyCode::Char('J'));
                } else if ch == 'K' {
                    assert(rows[3][4].primary == KeyCode::Char('K'));
                } else if ch == 'L' {
                    assert(rows[1][9].primary == KeyCode::Char('L'));
                } else if ch == 'M' {
                    assert(rows[3][7].primary == KeyCode::Char('M'));
                } else if ch == 'N' {
                    assert(rows[2][8].primary == KeyCode::Char('N'));
                } else if ch == 'O' {
                    assert(rows[2][1].primary == KeyCode::Char('O'));
                } else if ch == 'P' {
                    assert(rows[1][3].primary == KeyCode::Char('P'));
                } else if ch == 'Q' {
                    assert(rows[3][2].primary == KeyCode::Char('Q'));
                } else if ch == 'R' {
                    assert(rows[1][8].primary == KeyCode::Char('R'));
                } else if ch == 'S' {
                    assert(rows[2][9].primary == KeyCode::Char('S'));
                } else if ch == 'T' {
                    assert(rows[2][7].primary == KeyCode::Char('T'));
                } else if ch == 'U' {
                    assert(rows[2][3].primary == KeyCode::Char('U'));
                } else if ch == 'V' {
                    assert(rows[3][9].primary == KeyCode::Char('V'));
                } else if ch == 'W' {
                    assert(rows[3][8].primary == KeyCode::Char('W'));
                } else if ch == 'X' {
                    assert(rows[3][5].primary == KeyCode::Char('X'));
                } else if ch == 'Y' {
                    assert(rows[1][4].primary == KeyCode::Char('Y'));
                } else {
                    assert(rows[3][10].primary == KeyCode::Char('Z'));
                }
            }
        },
        KeyboardLayout::Colemak => {
            assert forall|ch: char| 'A' <= ch <= 'Z' implies has_letter(rows, ch) by {
                if ch == 'A' {
                    assert(rows[2][0].primary == KeyCode::Char('A'));
                } else if ch == 'B' {
                    assert(rows[3][5].primary == KeyCode::Char('B'));
                } else if ch == 'C' {
                    assert(rows[3][3].primary == KeyCode::Char('C'));
                } else if ch == 'D' {
                    assert(rows[2][4].primary == KeyCode::Char('D'));
                } else if ch == 'E' {
                    assert(rows[2][7].primary == KeyCode::Char('E'));
                } else if ch == 'F' {
                    assert(rows[1][2].primary == KeyCode::Char('F'));
                } else if ch == 'G' {
                    assert(rows[1][4].primary == KeyCode::Char('G'));
                } else if ch == 'H' {
                    assert(rows[2][5].primary == KeyCode::Char('H'));
                } else if ch == 'I' {
                    assert(rows[2][8].primary == KeyCode::Char('I'));
                } else if ch == 'J' {
                    assert(rows[1][5].primary == KeyCode::Char('J'));
                } else if ch == 'K' {
                    assert(rows[3][6].primary == KeyCode::Char('K'));
                } else if ch == 'L' {
                    assert(rows[1][6].primary == KeyCode::Char('L'));
                } else if ch == 'M' {
                    assert(rows[3][7].primary == KeyCode::Char('M'));
                } else if ch == 'N' {
                    assert(rows[2][6].primary == KeyCode::Char('N'));
                } else if ch == 'O' {
                    assert(rows[2][9].primary == KeyCode::Char('O'));
                } else if ch == 'P' {
                    assert(rows[1][3].primary == KeyCode::Char('P'));
                } else if ch == 'Q' {
                    assert(rows[1][0].primary == KeyCode::Char('Q'));
                } else if ch == 'R' {
                    assert(rows[2][1].primary == KeyCode::Char('R'));
                } else if ch == 'S' {
                    assert(rows[2][2].primary == KeyCode::Char('S'));
                } else if ch == 'T' {
                    assert(rows[2][3].primary == KeyCode::Char('T'));
                } else if ch == 'U' {
                    assert(rows[1][7].primary == KeyCode::Char('U'));
                } else if ch == 'V' {
                    assert(rows[3][4].primary == KeyCode::Char('V'));
                } else if ch == 'W' {
                    assert(rows[1][1].primary == KeyCode::Char('W'));
                } else if ch == 'X' {
                    assert(rows[3][2].primary == KeyCode::Char('X'));
                } else if ch == 'Y' {
                    assert(rows[1][8].primary == KeyCode::Char('Y'));
                } else {
                    assert(rows[3][1].primary == KeyCode::Char('Z'));
                }
            }
        },
    }
}

/// The keyboard of every layout and platform: five rows of 13, 12, 12, 12
/// and 7 keys, with the space bar in the middle of the last; no key code
/// stands on two keys, nor twice on one; each letter from A to Z is the main
/// character of exactly one key; and Colemak keeps the number row of QWERTY.
pub proof fn lemma_keyboard_shape(layout: KeyboardLayout, platform: Platform)
    ensures
        ({
            let rows = keyboard_rows(layout, platform);
            &&& rows.len() == 5
            &&& rows[0].len() == 13 && rows[1].len() == 12 && rows[2].len() == 12
            &&& rows[3].len() == 12 && rows[4].len() == 7
            &&& rows[4][3] == spacebar()
            &&& codes_unique(rows)
            &&& forall|ch: char| 'A' <= ch <= 'Z' ==> has_letter(rows, ch)
        }),
        keyboard_rows(KeyboardLayout::Colemak, platform)[0] == keyboard_rows(KeyboardLayout::Qwerty, platform)[0],
{
    lemma_rows_distinct(layout, platform);
    lemma_all_letters(layout, platform);
}

// --- Where each key sits ---

/// The grid entries of one key: its primary key, then its shifted one.
pub open spec fn key_def_entries(k: KeyDef, row: int, col: int) -> Seq<(KeyCode, GridCoord)> {
    match k.secondary {
        Some(s) => seq![(k.primary, (row as usize, col as usize)), (s, (row as usize, col as usize))],
        None => seq![(k.primary, (row as usize, col as usize))],
    }
}

/// The grid entries of a row, left to right.
pub open spec fn row_entries(row: Seq<KeyDef>, r: int) -> Seq<(KeyCode, GridCoord)>
    decreases row.len(),
{
    if row.len() == 0 {
        Seq::empty()
    } else {
        row_entries(row.drop_last(), r) + key_def_entries(row.last(), r, row.len() - 1)
    }
}

/// The grid entries of all rows, top to bottom.
pub open spec fn key_entries(rows: Seq<Seq<KeyDef>>) -> Seq<(KeyCode, GridCoord)>
    decreases rows.len(),
{
    if rows.len() == 0 {
        Seq::empty()
    } else {
        key_entries(rows.drop_last()) + row_entries(rows.last(), rows.len() - 1)
    }
}

/// The map that entering `entries` in order gives: a later entry for a key
/// replaces an earlier one.
pub open spec fn entries_map(entries: Seq<(KeyCode, GridCoord)>) -> Map<KeyCode, GridCoord>
    decreases entries.len(),
{
    if entries.len() == 0 {
        Map::empty()
    } else {
        entries_map(entries.drop_last()).insert(entries.last().0, entries.last().1)
    }
}

/// Entries after position `i` that do not mention `k` leave its lookup as it
/// was after the first `i` entries.
proof fn lemma_entries_map_prefix(entries: Seq<(KeyCode, GridCoord)>, i: int, k: KeyCode)
    requires
        0 <= i <= entries.len(),
        forall|j: int| i <= j < entries.len() ==> entries[j].0 != k,
    ensures
        entries_map(entries).dom().contains(k) == entries_map(entries.take(i)).dom().contains(k),
        entries_map(entries).dom().contains(k) ==> entries_map(entries)[k] == entries_map(
            entries.take(i),
        )[k],
    decreases entries.len() - i,
{
    if i < entries.len() {
        let s = entries.drop_last();
        assert(s.take(i) == entries.take(i));
        lemma_entries_map_prefix(s, i, k);
    } else {
        assert(entries.take(i) == entries);
    }
}

/// Whether a key carries `code`, as its primary or its shifted key.
pub open spec fn carries(k: KeyDef, code: KeyCode) -> bool {
    k.primary == code || k.secondary == Some(code)
}

/// Whether some key of `rows` carries `code`.
pub open spec fn on_keyboard(rows: Seq<Seq<KeyDef>>, code: KeyCode) -> bool {
    exists|r: int, c: int| 0 <= r < rows.len() && 0 <= c < rows[r].len() && carries(#[trigger] rows[r][c], code)
}

/// A key is in the map of `entries` exactly when some entry names it, and
/// then some entry names it with the position the map gives.
proof fn lemma_entries_map_from(entries: Seq<(KeyCode, GridCoord)>, k: KeyCode)
    ensures
        entries_map(entries).dom().contains(k) <==> exists|j: int| 0 <= j < entries.len() && (#[trigger] entries[j]).0 == k,
        entries_map(entries).dom().contains(k) ==> exists|j: int|
            0 <= j < entries.len() && #[trigger] entries[j] == (k, entries_map(entries)[k]),
    decreases entries.len(),
{
    if entries.len() > 0 {
        let init = entries.drop_last();
        lemma_entries_map_from(init, k);
        if entries.last().0 == k {
            assert(entries[entries.len() - 1] == (k, entries_map(entries)[k]));
        } else {
            if entries_map(init).dom().contains(k) {
                let j = choose|j: int| 0 <= j < init.len() && #[trigger] init[j] == (k, entries_map(init)[k]);
                assert(entries[j] == init[j]);
            }
            if exists|j: int| 0 <= j < entries.len() && (#[trigger] entries[j]).0 == k {
                let j = choose|j: int| 0 <= j < entries.len() && (#[trigger] entries[j]).0 == k;
                assert(init[j] == entries[j]);
            }
        }
    }
}

/// Each entry of a row names a key of the row at its position.
proof fn lemma_row_entries_sound(row: Seq<KeyDef>, r: int)
    requires
        0 <= r <= usize::MAX,
        row.len() <= usize::MAX,
    ensures
        forall|j: int| 0 <= j < row_entries(row, r).len() ==> {
            let e = #[trigger] row_entries(row, r)[j];
            &&& e.1.0 == r
            &&& e.1.1 < row.len()
            &&& carries(row[e.1.1 as int], e.0)
        },
    decreases row.len(),
{
    if row.len() > 0 {
        let init = row.drop_last();
        lemma_row_entries_sound(init, r);
        let a = row_entries(init, r);
        let b = key_def_entries(row.last(), r, row.len() - 1);
        assert forall|j: int| 0 <= j < row_entries(row, r).len() implies {
            let e = #[trigger] row_entries(row, r)[j];
            &&& e.1.0 == r
            &&& e.1.1 < row.len()
            &&& carries(row[e.1.1 as int], e.0)
        } by {
            if j < a.len() {
                assert(row_entries(row, r)[j] == a[j]);
                assert(init[a[j].1.1 as int] == row[a[j].1.1 as int]);
            } else {
                assert(row_entries(row, r)[j] == b[j - a.len()]);
            }
        }
    }
}

/// A key carried by a row has an entry in it.
proof fn lemma_row_entries_complete(row: Seq<KeyDef>, r: int, c: int, code: KeyCode)
    requires
        0 <= c < row.len(),
        carries(row[c], code),
    ensures
        exists|j: int| 0 <= j < row_entries(row, r).len() && (#[trigger] row_entries(row, r)[j]).0 == code,
    decreases row.len(),
{
    let init = row.drop_last();
    let a = row_entries(init, r);
    if c == row.len() - 1 {
        let k = row.last();
        if k.primary == code {
            assert(row_entries(row, r)[a.len() as int].0 == code);
        } else {
            assert(row_entries(row, r)[a.len() as int + 1].0 == code);
        }
    } else {
        lemma_row_entries_complete(init, r, c, code);
        let j = choose|j: int| 0 <= j < a.len() && (#[trigger] a[j]).0 == code;
        assert(row_entries(row, r)[j] == a[j]);
    }
}

/// Each entry of the keyboard names a key at its position.
proof fn lemma_key_entries_sound(rows: Seq<Seq<KeyDef>>)
    requires
        rows.len() <= usize::MAX,
        forall|i: int| 0 <= i < rows.len() ==> #[trigger] rows[i].len() <= usize::MAX,
    ensures
        forall|j: int| 0 <= j < key_entries(rows).len() ==> {
            let e = #[trigger] key_entries(rows)[j];
            &&& e.1.0 < rows.len()
            &&& e.1.1 < rows[e.1.0 as int].len()
            &&& carries(rows[e.1.0 as int][e.1.1 as int], e.0)
        },
    decreases rows.len(),
{
    if rows.len() > 0 {
        let init = rows.drop_last();
        lemma_key_entries_sound(init);
        lemma_row_entries_sound(rows.last(), rows.len() - 1);
        let a = key_entries(init);
        let b = row_entries(rows.last(), rows.len() - 1);
        assert forall|j: int| 0 <= j < key_entries(rows).len() implies {
            let e = #[trigger] key_entries(rows)[j];
            &&& e.1.0 < rows.len()
            &&& e.1.1 < rows[e.1.0 as int].len()
            &&& carries(rows[e.1.0 as int][e.1.1 as int], e.0)
        } by {
            if j < a.len() {
                assert(key_entries(rows)[j] == a[j]);
                assert(init[a[j].1.0 as int] == rows[a[j].1.0 as int]);
            } else {
                assert(key_entries(rows)[j] == b[j - a.len()]);
            }
        }
    }
}

/// A key carried by the keyboard has an entry.
proof fn lemma_key_entries_complete(rows: Seq<Seq<KeyDef>>, r: int, c: int, code: KeyCode)
    requires
        0 <= r < rows.len(),
        0 <= c < rows[r].len(),
        carries(rows[r][c], code),
    ensures
        exists|j: int| 0 <= j < key_entries(rows).len() && (#[trigger] key_entries(rows)[j]).0 == code,
    decreases rows.len(),
{
    let init = rows.drop_last();
    let a = key_entries(init);
    if r == rows.len() - 1 {
        lemma_row_entries_complete(rows.last(), r, c, code);
        let b = row_entries(rows.last(), r);
        let j = choose|j: int| 0 <= j < b.len() && (#[trigger] b[j]).0 == code;
        assert(key_entries(rows)[a.len() + j] == b[j]);
    } else {
        assert(init[r] == rows[r]);
        lemma_key_entries_complete(init, r, c, code);
        let j = choose|j: int| 0 <= j < a.len() && (#[trigger] a[j]).0 == code;
        assert(key_entries(rows)[j] == a[j]);
    }
}

/// The grid of a keyboard finds a key exactly when some key of the keyboard
/// carries it, and the position it gives holds a key that carries it: a
/// hint never lands on a key that does not show the character.
pub proof fn lemma_grid_finds_keys(rows: Seq<Seq<KeyDef>>, code: KeyCode)
    requires
        rows.len() <= usize::MAX,
        forall|i: int| 0 <= i < rows.len() ==> #[trigger] rows[i].len() <= usize::MAX,
    ensures
        entries_map(key_entries(rows)).dom().contains(code) <==> on_keyboard(rows, code),
        entries_map(key_entries(rows)).dom().contains(code) ==> {
            let p = entries_map(key_entries(rows))[code];
            &&& p.0 < rows.len()
            &&& p.1 < rows[p.0 as int].len()
            &&& carries(rows[p.0 as int][p.1 as int], code)
        },
{
    let e = key_entries(rows);
    lemma_entries_map_from(e, code);
    lemma_key_entries_sound(rows);
    if entries_map(e).dom().contains(code) {
        let j = choose|j: int| 0 <= j < e.len() && #[trigger] e[j] == (code, entries_map(e)[code]);
        let p = e[j].1;
        assert(carries(rows[p.0 as int][p.1 as int], code));
    }
    if on_keyboard(rows, code) {
        let (r, c) = choose|r: int, c: int| 0 <= r < rows.len() && 0 <= c < rows[r].len() && carries(#[trigger] rows[r][c], code);
        lemma_key_entries_complete(rows, r, c, code);
    }
}

/// Where each key of a keyboard sits on its grid.
pub struct GridMap {
    entries: Vec<(KeyCode, GridCoord)>,
}

impl View for GridMap {
    type V = Map<KeyCode, GridCoord>;

    closed spec fn view(&self) -> Map<KeyCode, GridCoord> {
        entries_map(self.entries@)
    }
}

impl GridMap {
    /// The position of a key, if it is on the grid.
    pub fn get(&self, key: &KeyCode) -> (r: Option<GridCoord>)
        ensures
            r is Some <==> self@.dom().contains(*key),
            r matches Some(c) ==> c == self@[*key],
    {
        let ghost s = self.entries@;
        let mut i = self.entries.len();
        while i > 0
            invariant
                i <= self.entries.len(),
                s == self.entries@,
                forall|j: int| i <= j < s.len() ==> s[j].0 != *key,
            decreases i,
        {
            let (k, c) = self.entries[i - 1];
            if k == *key {
                proof {
                    lemma_entries_map_prefix(s, i as int, *key);
                    assert(s.take(i as int).drop_last() == s.take(i - 1));
                    assert(s.take(i as int).last() == s[i - 1]);
                }
                return Some(c);
            }
            i -= 1;
        }
        proof {
            lemma_entries_map_prefix(s, 0, *key);
        }
        None
    }

    /// Whether a key is on the grid.
    pub fn contains_key(&self, key: &KeyCode) -> (b: bool)
        ensures
            b == self@.dom().contains(*key),
    {
        self.get(key).is_some()
    }
}

/// The grid positions of all keys of `rows`: each primary and each shifted
/// key at the position of its key (see [`key_entries`] and [`entries_map`]).
pub fn build_keycode_grid_map(rows: &[Vec<KeyDef>]) -> (map: GridMap)
    ensures
        map@ == entries_map(key_entries(rows_view(rows@))),
{
    let ghost rv = rows_view(rows@);
    let mut entries: Vec<(KeyCode, GridCoord)> = Vec::new();
    let n = rows.len();
    for row_idx in 0..n
        invariant
            n == rows@.len(),
            rv == rows_view(rows@),
            entries@ == key_entries(rv.take(row_idx as int)),
    {
        let row = &rows[row_idx];
        let m = row.len();
        for col_idx in 0..m
            invariant
                m == row@.len(),
                row@ == rv[row_idx as int],
                entries@ == key_entries(rv.take(row_idx as int)) + row_entries(
                    row@.take(col_idx as int),
                    row_idx as int,
                ),
        {
            let key_def = row[col_idx];
            assert(row@.take(col_idx + 1).drop_last() == row@.take(col_idx as int));
            entries.push((key_def.primary, (row_idx, col_idx)));
            match key_def.secondary {
                Some(secondary) => {
                    entries.push((secondary, (row_idx, col_idx)));
                },
                None => {},
            }
            assert(entries@ == key_entries(rv.take(row_idx as int)) + row_entries(
                row@.take(col_idx + 1),
                row_idx as int,
            ));
        }
        assert(row@.take(m as int) == row@);
        assert(rv.take(row_idx + 1).drop_last() == rv.take(row_idx as int));
    }
    assert(rv.take(n as int) == rv);
    GridMap { entries }
}

// --- Which keys to hint ---

/// `char::is_uppercase`: whether a character has the Unicode `Uppercase`
/// property.
pub uninterp spec fn char_is_uppercase(c: char) -> bool;

/// Calls `char::is_uppercase`; its result is named [`char_is_uppercase`].
#[verifier::external_body]
fn is_uppercase(c: char) -> (b: bool)
    ensures
        b == char_is_uppercase(c),
{
    c.is_uppercase()
}

/// The symbols typed with Shift on the keyboards here.
pub open spec fn shifted_symbol(c: char) -> bool {
    c == '!' || c == '@' || c == '#' || c == '$' || c == '%' || c == '^' || c == '&' || c == '*'
        || c == '(' || c == ')' || c == '_' || c == '+' || c == '{' || c == '}' || c == '|' || c
        == ':' || c == '"' || c == '<' || c == '>' || c == '?' || c == '~'
}

fn is_shifted_symbol(c: char) -> (b: bool)
    ensures
        b == shifted_symbol(c),
{
    c == '!' || c == '@' || c == '#' || c == '$' || c == '%' || c == '^' || c == '&' || c == '*'
        || c == '(' || c == ')' || c == '_' || c == '+' || c == '{' || c == '}' || c == '|' || c
        == ':' || c == '"' || c == '<' || c == '>' || c == '?' || c == '~'
}

/// The grid positions to hint for the character to type next: the key of its
/// upper-case form, when the grid has it, then the left Shift when the
/// character is upper case or a shifted symbol and the grid has Shift.
pub open spec fn hint_view(grid: Map<KeyCode, GridCoord>, expected: Option<char>) -> Seq<GridCoord> {
    match expected {
        None => Seq::empty(),
        Some(ch) => {
            let key = KeyCode::Char(crate::text::ascii_upper(ch));
            let shift = KeyCode::Modifier(ModifierKeyCode::LeftShift);
            let first: Seq<GridCoord> = if grid.dom().contains(key) {
                seq![grid[key]]
            } else {
                Seq::empty()
            };
            if (char_is_uppercase(ch) || shifted_symbol(ch)) && grid.dom().contains(shift) {
                first.push(grid[shift])
            } else {
                first
            }
        },
    }
}

/// The grid positions to hint for the character to type next (see [`hint_view`]).
pub fn hint_coords(grid: &GridMap, expected: Option<char>) -> (coords: Vec<GridCoord>)
    ensures
        coords@ == hint_view(grid@, expected),
{
    let mut coords: Vec<GridCoord> = Vec::new();
    match expected {
        None => {},
        Some(ch) => {
            let key = KeyCode::Char(crate::text::to_ascii_uppercase(ch));
            match grid.get(&key) {
                Some(coord) => coords.push(coord),
                None => {},
            }
            let needs_shift = is_uppercase(ch) || is_shifted_symbol(ch);
            if needs_shift {
                match grid.get(&KeyCode::Modifier(ModifierKeyCode::LeftShift)) {
                    Some(coord) => coords.push(coord),
                    None => {},
                }
            }
        },
    }
    coords
}

/// Shift is hinted exactly when the character needs it. For a character
/// that is not upper case and is not one of the symbols typed with Shift
/// (a digit or a lower-case letter, say) the hints are the position of its
/// key alone, if the keyboard has it; for one that is, the left Shift
/// follows that position.
pub proof fn lemma_shift_hinted_only_when_needed(grid: Map<KeyCode, GridCoord>, ch: char)
    requires
        grid.dom().contains(KeyCode::Modifier(ModifierKeyCode::LeftShift)),
    ensures
        ({
            let key = KeyCode::Char(crate::text::ascii_upper(ch));
            let own: Seq<GridCoord> = if grid.dom().contains(key) {
                seq![grid[key]]
            } else {
                Seq::empty()
            };
            let symbol = ch == '!' || ch == '@' || ch == '#' || ch == '$' || ch == '%' || ch == '^' || ch == '&'
                || ch == '*' || ch == '(' || ch == ')' || ch == '_' || ch == '+' || ch == '{' || ch == '}' || ch
                == '|' || ch == ':' || ch == '"' || ch == '<' || ch == '>' || ch == '?' || ch == '~';
            &&& !char_is_uppercase(ch) && !symbol ==> hint_view(grid, Some(ch)) == own
            &&& (char_is_uppercase(ch) || symbol) ==> hint_view(grid, Some(ch)) == own.push(
                grid[KeyCode::Modifier(ModifierKeyCode::LeftShift)],
            )
        }),
{
}

/// The bottom row starts with Shift, so each of its keys past the Shift is
/// typed with the finger of the home-row key one column to its left, and
/// the Shift and the key right of it with the little finger. The home row
/// runs little, ring, middle and index finger for each hand, with the index
/// fingers on the four middle columns; the modifier row is for the thumbs.
pub proof fn lemma_bottom_row_follows_home_row(c: int)
    ensures
        c >= 1 ==> coord_finger(3, c + 1) == coord_finger(2, c),
        coord_finger(3, 0) == Some(Finger::Pinky),
        coord_finger(3, 1) == Some(Finger::Pinky),
        coord_finger(2, 0) == Some(Finger::Pinky) && coord_finger(2, 1) == Some(Finger::Ring),
        coord_finger(2, 2) == Some(Finger::Middle) && coord_finger(2, 7) == Some(Finger::Middle),
        3 <= c <= 6 ==> coord_finger(2, c) == Some(Finger::Index),
        coord_finger(2, 8) == Some(Finger::Ring) && coord_finger(2, 9) == Some(Finger::Pinky),
        0 <= c ==> coord_finger(4, c) == Some(Finger::Thumb),
{
}

} // verus!
