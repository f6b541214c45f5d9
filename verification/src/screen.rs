//! What the screen shows, computed from the state: the regions of the
//! screen, the cells of the virtual keyboard and what each holds, and the
//! contents of the text panel. Drawing them is left to the terminal front end.
use vstd::prelude::*;

use crate::app::App;
use crate::document::{expected_of, Progress};
use crate::keyboard::{hint_coords, hint_view, GridCoord, GridMap, KeyDef, KeyWidth};
use crate::keys::KeyCode;
use crate::stats::worst_spec;
use crate::text::chars_of;
use ratatui::layout::{Constraint, Direction, Flex, Layout, Rect};

verus! {

/// A rectangle of terminal cells.
#[derive(Debug, Clone, Copy, PartialEq, Eq, Hash, Structural)]
pub struct Area {
    pub x: u16,
    pub y: u16,
    pub width: u16,
    pub height: u16,
}

/// A rectangle that does not reach past the last cell: its width and height
/// are cut to what fits (as `ratatui::layout::Rect::new` does).
pub open spec fn area_of(x: u16, y: u16, width: u16, height: u16) -> Area {
    Area {
        x,
        y,
        width: if width > u16::MAX - x {
            (u16::MAX - x) as u16
        } else {
            width
        },
        height: if height > u16::MAX - y {
            (u16::MAX - y) as u16
        } else {
            height
        },
    }
}

/// A rectangle (see [`area_of`]).
pub fn new_area(x: u16, y: u16, width: u16, height: u16) -> (a: Area)
    ensures
        a == area_of(x, y, width, height),
{
    let max_width = u16::MAX - x;
    let max_height = u16::MAX - y;
    Area {
        x,
        y,
        width: if width > max_width {
            max_width
        } else {
            width
        },
        height: if height > max_height {
            max_height
        } else {
            height
        },
    }
}

/// How much of a row or column a part of a layout asks for.
#[derive(Debug, Clone, Copy, PartialEq, Eq, Structural)]
pub enum Size {
    Length(u16),
    Min(u16),
    Percentage(u16),
    Ratio(u32, u32),
}

/// How a layout cuts an area.
#[derive(Debug, Clone, Copy, PartialEq, Eq, Structural)]
pub enum Split {
    /// Into rows, top to bottom, from the top edge.
    Rows,
    /// Into rows, kept together in the middle.
    CenteredRows,
    /// Into columns, left to right, from the left edge.
    Columns,
    /// Into columns, left to right, kept together in the middle.
    CenteredColumns,
}

/// The rectangle that the layout solver works on: `area` cut so that it does
/// not reach past the last cell (see [`area_of`]).
pub open spec fn fitted(a: Area) -> Area {
    area_of(a.x, a.y, a.width, a.height)
}

/// Whether `p` lies inside `a`.
pub open spec fn inside(p: Area, a: Area) -> bool {
    &&& a.x <= p.x
    &&& p.x + p.width <= a.x + a.width
    &&& a.y <= p.y
    &&& p.y + p.height <= a.y + a.height
}

/// Whether `p` is a part of `a` as a layout cuts it: a band of rows of `a`,
/// as wide as `a`, when `vertical`; else a band of columns, as high as `a`.
pub open spec fn band_of(p: Area, a: Area, vertical: bool) -> bool {
    if vertical {
        p.x == a.x && p.width == a.width && a.y <= p.y && p.y + p.height <= a.y + a.height
    } else {
        p.y == a.y && p.height == a.height && a.x <= p.x && p.x + p.width <= a.x + a.width
    }
}

/// Whether each of `parts` is a band of `area` (see [`band_of`]).
pub open spec fn bands_of(parts: Seq<Area>, area: Area, vertical: bool) -> bool {
    forall|i: int| 0 <= i < parts.len() ==> band_of(#[trigger] parts[i], fitted(area), vertical)
}

/// A fitted rectangle ends within the screen, and one that does is its own
/// fitted rectangle.
pub proof fn lemma_fitted(a: Area)
    ensures
        fitted(a).x + fitted(a).width <= u16::MAX,
        fitted(a).y + fitted(a).height <= u16::MAX,
        fitted(a).x == a.x && fitted(a).y == a.y,
        (a.x + a.width <= u16::MAX && a.y + a.height <= u16::MAX) ==> fitted(a) == a,
{
}

/// Whether `parts` is a layout that `ratatui`'s solver gives `area` for
/// `sizes`, cut top to bottom when `vertical`, else left to right, and kept
/// together in the middle when `centered`, else from the start. It is a
/// relation, not a function: where several layouts are equally good the
/// solver may give any of them.
pub uninterp spec fn laid_out(area: Area, vertical: bool, centered: bool, sizes: Seq<Size>, parts: Seq<Area>) -> bool;

/// Calls `ratatui::layout::Layout::split` on a layout of `sizes`, vertical
/// or horizontal, with `Flex::Center` or `Flex::Start`, over the rectangle
/// that `Rect::new` makes of `area`. The solver makes one segment per
/// constraint, and `changes_to_rects` turns each into a band: for a vertical
/// layout it keeps the area's `x` and `width` and takes its top and bottom
/// from two solver variables that required constraints hold between the
/// area's top and bottom (a horizontal layout likewise across). The parts
/// are a layout for these arguments (see [`laid_out`]); which one is left
/// unsaid: where several layouts are equally good the solver picks one by
/// the order of its hash maps, and whether two parts keep apart rests on the
/// weights of non-required constraints and on rounding. The call
/// does not fail on these sizes: its only required constraints (the area's
/// bounds and each segment's order) can always be met.
#[verifier::external_body]
fn layout_split(area: Area, vertical: bool, centered: bool, sizes: &Vec<Size>) -> (parts: Vec<Area>)
    ensures
        parts@.len() == sizes@.len(),
        bands_of(parts@, area, vertical),
        laid_out(area, vertical, centered, sizes@, parts@),
{
    let cs = sizes.iter().map(|s| match *s {
        Size::Length(n) => Constraint::Length(n),
        Size::Min(n) => Constraint::Min(n),
        Size::Percentage(n) => Constraint::Percentage(n),
        Size::Ratio(a, b) => Constraint::Ratio(a, b),
    });
    let direction = if vertical { Direction::Vertical } else { Direction::Horizontal };
    let flex = if centered { Flex::Center } else { Flex::Start };
    let rects = Layout::new(direction, cs).flex(flex).split(Rect::new(area.x, area.y, area.width, area.height));
    rects.iter().map(|r| Area { x: r.x, y: r.y, width: r.width, height: r.height }).collect()
}

/// Whether a split cuts into rows.
pub open spec fn is_vertical(split: Split) -> bool {
    split is Rows || split is CenteredRows
}

/// Whether a split keeps its parts together in the middle.
pub open spec fn is_centered(split: Split) -> bool {
    split is CenteredRows || split is CenteredColumns
}

/// The parts of an area cut as `split` says: a layout for `sizes`, one part
/// per size, each a band of the area (see [`bands_of`]).
fn split_area(area: Area, split: Split, sizes: &Vec<Size>) -> (parts: Vec<Area>)
    ensures
        parts@.len() == sizes@.len(),
        bands_of(parts@, area, is_vertical(split)),
        laid_out(area, is_vertical(split), is_centered(split), sizes@, parts@),
{
    match split {
        Split::Rows => layout_split(area, true, false, sizes),
        Split::CenteredRows => layout_split(area, true, true, sizes),
        Split::Columns => layout_split(area, false, false, sizes),
        Split::CenteredColumns => layout_split(area, false, true, sizes),
    }
}

/// The widest the screen is used.
pub const MAX_WIDTH: u16 = 120;

/// The rows of the virtual keyboard.
pub const KEYBOARD_ROWS: u16 = 5;

/// The screen, at most [`MAX_WIDTH`] wide and centred when wider.
pub open spec fn clamped(area: Area) -> Area {
    if area.width <= MAX_WIDTH {
        area
    } else {
        area_of((area.x + (area.width - MAX_WIDTH) / 2) as u16, area.y, MAX_WIDTH, area.height)
    }
}

/// The screen, at most [`MAX_WIDTH`] wide (see [`clamped`]).
pub fn clamp_width(area: Area) -> (a: Area)
    requires
        area.width > MAX_WIDTH ==> area.x + (area.width - MAX_WIDTH) / 2 <= u16::MAX,
    ensures
        a == clamped(area),
{
    if area.width <= MAX_WIDTH {
        return area;
    }
    let pad = (area.width - MAX_WIDTH) / 2;
    new_area(area.x + pad, area.y, MAX_WIDTH, area.height)
}

/// The regions of the screen.
#[derive(Debug, Clone, Copy, PartialEq, Eq, Structural)]
pub struct Regions {
    pub header: Area,
    pub text_area: Area,
    pub search_area: Area,
    pub keyboard_area: Area,
}

/// The rows of the screen: a header three rows high, the body at least five
/// rows high, and the virtual keyboard of four rows per key row.
pub open spec fn screen_rows() -> Seq<Size> {
    seq![Size::Length(3), Size::Min(5), Size::Length((KEYBOARD_ROWS * 4) as u16)]
}

/// The regions made of the rows of the screen (header, body, keyboard) and
/// of the parts of the body that the text panel and the file prompt take.
pub open spec fn regions_from(rows: Seq<Area>, text: Seq<Area>, search: Seq<Area>) -> Regions {
    Regions { header: rows[0], text_area: text[0], search_area: search[0], keyboard_area: rows[2] }
}

/// The regions of the screen from the parts that the layout gave (see
/// [`regions_from`]).
pub fn regions_from_parts(rows: &Vec<Area>, text: &Vec<Area>, search: &Vec<Area>) -> (r: Regions)
    requires
        rows@.len() == 3,
        text@.len() >= 1,
        search@.len() >= 1,
    ensures
        r == regions_from(rows@, text@, search@),
{
    Regions { header: rows[0], text_area: text[0], search_area: search[0], keyboard_area: rows[2] }
}

/// Where the regions of a screen `area` lie, whatever the layout solver
/// chose: the header and the keyboard are bands of the screen (see
/// [`clamped`]) as wide as it; the text panel and the file prompt are on the
/// same rows, inside the screen, between the columns of the screen.
pub open spec fn regions_fit(area: Area, r: Regions) -> bool {
    let screen = fitted(clamped(area));
    &&& band_of(r.header, screen, true)
    &&& band_of(r.keyboard_area, screen, true)
    &&& inside(r.text_area, screen)
    &&& inside(r.search_area, screen)
    &&& r.text_area.y == r.search_area.y
    &&& r.text_area.height == r.search_area.height
}

/// The regions are a layout of the screen (see [`clamped`]) into the rows
/// of [`screen_rows`]: the header, a body and the keyboard; the text panel
/// is the middle 80% of the body and the file prompt the middle 60%.
pub open spec fn regions_laid_out(area: Area, r: Regions) -> bool {
    exists|body: Area|
        {
            &&& laid_out(clamped(area), true, false, screen_rows(), seq![r.header, body, r.keyboard_area])
            &&& laid_out(body, false, true, seq![Size::Percentage(80)], seq![r.text_area])
            &&& laid_out(body, false, true, seq![Size::Percentage(60)], seq![r.search_area])
        }
}

/// The regions of the screen: its rows are cut as [`screen_rows`] says, and
/// the body, the middle row, into the middle 80% for the text panel and the
/// middle 60% for the file prompt (see [`regions_fit`]).
pub fn compute_regions(area: Area) -> (r: Regions)
    requires
        area.width > MAX_WIDTH ==> area.x + (area.width - MAX_WIDTH) / 2 <= u16::MAX,
    ensures
        regions_laid_out(area, r),
        regions_fit(area, r),
{
    let screen = clamp_width(area);
    let row_sizes = vec![Size::Length(3), Size::Min(5), Size::Length(KEYBOARD_ROWS * 4)];
    assert(row_sizes@ =~= screen_rows());
    let rows = split_area(screen, Split::Rows, &row_sizes);
    let body = rows[1];
    proof {
        lemma_fitted(screen);
        assert(band_of(rows@[0], fitted(screen), true));
        assert(band_of(rows@[1], fitted(screen), true));
        assert(band_of(rows@[2], fitted(screen), true));
        lemma_fitted(body);
    }
    let text_sizes = vec![Size::Percentage(80)];
    assert(text_sizes@ =~= seq![Size::Percentage(80)]);
    let text = split_area(body, Split::CenteredColumns, &text_sizes);
    let search_sizes = vec![Size::Percentage(60)];
    assert(search_sizes@ =~= seq![Size::Percentage(60)]);
    let search = split_area(body, Split::CenteredColumns, &search_sizes);
    proof {
        assert(band_of(text@[0], fitted(body), false));
        assert(band_of(search@[0], fitted(body), false));
        assert(rows@ =~= seq![rows@[0], body, rows@[2]]);
        assert(text@ =~= seq![text@[0]]);
        assert(search@ =~= seq![search@[0]]);
    }
    let r = regions_from_parts(&rows, &text, &search);
    proof {
        assert(laid_out(clamped(area), true, false, screen_rows(), seq![r.header, body, r.keyboard_area]));
        assert(laid_out(body, false, true, seq![Size::Percentage(80)], seq![r.text_area]));
        assert(laid_out(body, false, true, seq![Size::Percentage(60)], seq![r.search_area]));
    }
    r
}

/// The width of a key cell, of a wide key and of the space bar for a
/// keyboard `area_width` cells wide: the largest odd width that fits 13 keys
/// in a row (at least 1), then the odd width at or just below one and a half
/// of it, and the odd width just below six of it.
pub open spec fn key_widths(area_width: u16) -> (u16, u16, u16) {
    let raw = area_width / 13;
    let unit = if raw % 2 == 0 {
        if raw >= 2 {
            (raw - 1) as u16
        } else {
            1u16
        }
    } else {
        raw
    };
    let raw_wide = unit * 3 / 2;
    let wide = if raw_wide % 2 == 0 {
        (raw_wide - 1) as u16
    } else {
        raw_wide as u16
    };
    let raw_space = unit * 6;
    let space = if raw_space % 2 == 0 {
        (raw_space - 1) as u16
    } else {
        raw_space as u16
    };
    (unit, wide, space)
}

/// The key widths (see [`key_widths`]); all three are odd, so that a label
/// is centred exactly between the borders of its cell.
pub fn key_cell_widths(area_width: u16) -> (w: (u16, u16, u16))
    ensures
        w == key_widths(area_width),
        w.0 % 2 == 1 && w.1 % 2 == 1 && w.2 % 2 == 1,
        w.0 >= 1 && w.1 >= 1 && w.2 >= 5,
{
    let raw = area_width / 13;
    let unit_width = if raw % 2 == 0 {
        let r = raw.saturating_sub(1);
        if r > 1 {
            r
        } else {
            1
        }
    } else {
        raw
    };
    assert(unit_width <= 5041);
    let raw_wide = unit_width * 3 / 2;
    let wide_width = if raw_wide % 2 == 0 {
        raw_wide - 1
    } else {
        raw_wide
    };
    let raw_space = unit_width * 6;
    let space_width = if raw_space % 2 == 0 {
        raw_space - 1
    } else {
        raw_space
    };
    (unit_width, wide_width, space_width)
}

/// The size of a key of the given width.
pub open spec fn key_size(width: KeyWidth, widths: (u16, u16, u16)) -> Size {
    match width {
        KeyWidth::Normal => Size::Length(widths.0),
        KeyWidth::Wide => Size::Length(widths.1),
        KeyWidth::Spacebar => Size::Length(widths.2),
    }
}

/// The sizes of the keys of a row.
pub open spec fn row_sizes(row: Seq<KeyDef>, widths: (u16, u16, u16)) -> Seq<Size> {
    row.map_values(|k: KeyDef| key_size(k.width, widths))
}

/// The sizes of the keys of each row, for a keyboard `area_width` cells
/// wide (see [`key_widths`]).
pub open spec fn keyboard_sizes(rows: Seq<Seq<KeyDef>>, area_width: u16) -> Seq<Seq<Size>> {
    Seq::new(rows.len(), |i: int| row_sizes(rows[i], key_widths(area_width)))
}

/// The sizes of the keys of each row (see [`keyboard_sizes`]).
pub fn key_sizes(rows: &[Vec<KeyDef>], area_width: u16) -> (sizes: Vec<Vec<Size>>)
    ensures
        sizes@.map_values(|r: Vec<Size>| r@) == keyboard_sizes(rows@.map_values(|r: Vec<KeyDef>| r@), area_width),
{
    let ghost rv = rows@.map_values(|r: Vec<KeyDef>| r@);
    let widths = key_cell_widths(area_width);
    let mut sizes: Vec<Vec<Size>> = Vec::new();
    let n = rows.len();
    for i in 0..n
        invariant
            n == rows@.len(),
            widths == key_widths(area_width),
            rv == rows@.map_values(|r: Vec<KeyDef>| r@),
            sizes@.len() == i,
            forall|j: int| 0 <= j < i ==> #[trigger] sizes@[j]@ == row_sizes(rv[j], widths),
    {
        let row = &rows[i];
        let mut row_size: Vec<Size> = Vec::new();
        let m = row.len();
        for j in 0..m
            invariant
                m == row@.len(),
                row_size@ == row_sizes(row@.take(j as int), widths),
        {
            let size = match row[j].width {
                KeyWidth::Normal => Size::Length(widths.0),
                KeyWidth::Wide => Size::Length(widths.1),
                KeyWidth::Spacebar => Size::Length(widths.2),
            };
            row_size.push(size);
            assert(row_sizes(row@.take(j + 1), widths) == row_sizes(row@.take(j as int), widths).push(size));
        }
        assert(row@.take(m as int) == row@);
        sizes.push(row_size);
    }
    assert(sizes@.map_values(|r: Vec<Size>| r@) =~= keyboard_sizes(rv, area_width));
    sizes
}

/// Whether `cells` can be the cells of the keys of `rows` on a keyboard in
/// `area`: one row of cells per row of keys and one cell per key, each
/// inside the area, the cells of a row all on the same rows of the screen.
pub open spec fn cells_fit(cells: Seq<Seq<Area>>, rows: Seq<Seq<KeyDef>>, area: Area) -> bool {
    &&& cells.len() == rows.len()
    &&& forall|i: int| 0 <= i < cells.len() ==> (#[trigger] cells[i]).len() == rows[i].len()
    &&& forall|i: int, j: int|
        0 <= i < cells.len() && 0 <= j < cells[i].len() ==> inside(#[trigger] cells[i][j], fitted(area))
    &&& forall|i: int, j: int, k: int|
        0 <= i < cells.len() && 0 <= j < cells[i].len() && 0 <= k < cells[i].len() ==> (#[trigger] cells[i][j]).y
            == (#[trigger] cells[i][k]).y && cells[i][j].height == cells[i][k].height
}

/// The rows of the keyboard: five of equal ratio.
pub open spec fn keyboard_row_sizes() -> Seq<Size> {
    Seq::new(5, |i: int| Size::Ratio(1, 5))
}

/// The cells are a layout of the keyboard: the area is laid out into the
/// rows of [`keyboard_row_sizes`], and each row into the sizes of its keys
/// (see [`keyboard_sizes`]), centred.
pub open spec fn cells_laid_out(cells: Seq<Seq<Area>>, rows: Seq<Seq<KeyDef>>, area: Area) -> bool {
    exists|row_areas: Seq<Area>|
        {
            &&& laid_out(area, true, false, keyboard_row_sizes(), row_areas)
            &&& forall|i: int|
                0 <= i < rows.len() ==> laid_out(
                    #[trigger] row_areas[i],
                    false,
                    true,
                    keyboard_sizes(rows, area.width)[i],
                    cells[i],
                )
        }
}

/// The cells of the keys of the keyboard: the area is cut into five rows of
/// equal ratio, and each row into its keys, centred, with the sizes of
/// [`keyboard_sizes`] (see [`cells_fit`]).
pub fn build_keyboard_rects(area: Area, rows: &[Vec<KeyDef>]) -> (cells: Vec<Vec<Area>>)
    requires
        rows@.len() <= 5,
    ensures
        cells_fit(cells@.map_values(|r: Vec<Area>| r@), rows@.map_values(|r: Vec<KeyDef>| r@), area),
        cells_laid_out(cells@.map_values(|r: Vec<Area>| r@), rows@.map_values(|r: Vec<KeyDef>| r@), area),
{
    let ghost rv = rows@.map_values(|r: Vec<KeyDef>| r@);
    let mut ratios: Vec<Size> = Vec::new();
    for i in 0..5usize
        invariant
            ratios@ == Seq::new(i as nat, |j: int| Size::Ratio(1, 5)),
    {
        ratios.push(Size::Ratio(1, KEYBOARD_ROWS as u32));
        assert(ratios@ =~= Seq::new((i + 1) as nat, |j: int| Size::Ratio(1, 5)));
    }
    assert(ratios@ =~= keyboard_row_sizes());
    let row_areas = split_area(area, Split::Rows, &ratios);
    let sizes = key_sizes(rows, area.width);
    proof {
        lemma_fitted(area);
        assert(sizes@.len() == rows@.len()) by {
            assert(sizes@.map_values(|r: Vec<Size>| r@).len() == rv.len());
        }
    }
    let mut cells: Vec<Vec<Area>> = Vec::new();
    let n = rows.len();
    for i in 0..n
        invariant
            n == rows@.len(),
            n <= 5,
            row_areas@.len() == 5,
            bands_of(row_areas@, area, true),
            sizes@.len() == n,
            sizes@.map_values(|r: Vec<Size>| r@) == keyboard_sizes(rv, area.width),
            rv == rows@.map_values(|r: Vec<KeyDef>| r@),
            cells@.len() == i,
            forall|j: int| 0 <= j < i ==> (#[trigger] cells@[j])@.len() == rv[j].len(),
            forall|j: int, k: int|
                0 <= j < i && 0 <= k < cells@[j]@.len() ==> band_of(
                    #[trigger] cells@[j]@[k],
                    row_areas@[j],
                    false,
                ),
            laid_out(area, true, false, keyboard_row_sizes(), row_areas@),
            forall|j: int|
                0 <= j < i ==> laid_out(
                    #[trigger] row_areas@[j],
                    false,
                    true,
                    keyboard_sizes(rv, area.width)[j],
                    cells@[j]@,
                ),
    {
        proof {
            assert(sizes@.map_values(|r: Vec<Size>| r@)[i as int] == sizes@[i as int]@);
            assert(row_sizes(rv[i as int], key_widths(area.width)).len() == rv[i as int].len());
            assert(band_of(row_areas@[i as int], fitted(area), true));
            lemma_fitted(row_areas@[i as int]);
        }
        let part = split_area(row_areas[i], Split::CenteredColumns, &sizes[i]);
        cells.push(part);
    }
    proof {
        let cv = cells@.map_values(|r: Vec<Area>| r@);
        assert forall|i: int| 0 <= i < rv.len() implies laid_out(
            #[trigger] row_areas@[i],
            false,
            true,
            keyboard_sizes(rv, area.width)[i],
            cv[i],
        ) by {
            assert(cv[i] == cells@[i]@);
        }
        assert forall|i: int, j: int| 0 <= i < cv.len() && 0 <= j < cv[i].len() implies inside(
            #[trigger] cv[i][j],
            fitted(area),
        ) by {
            assert(band_of(cells@[i]@[j], row_areas@[i], false));
            assert(band_of(row_areas@[i], fitted(area), true));
        }
        assert forall|i: int, j: int, k: int|
            0 <= i < cv.len() && 0 <= j < cv[i].len() && 0 <= k < cv[i].len() implies (#[trigger] cv[i][j]).y
                == (#[trigger] cv[i][k]).y && cv[i][j].height == cv[i][k].height by {
            assert(band_of(cells@[i]@[j], row_areas@[i], false));
            assert(band_of(cells@[i]@[k], row_areas@[i], false));
        }
    }
    cells
}

// --- The virtual keyboard's cells ---

/// How a key cell is drawn.
#[derive(Debug, Clone, Copy, PartialEq, Eq, Structural)]
pub enum KeyLook {
    /// The key just typed.
    Highlighted,
    /// A key to type next.
    Hinted,
    Plain,
}

/// The look of the key at `coord`: the highlight wins over a hint.
pub open spec fn key_look(coord: GridCoord, hints: Seq<GridCoord>, highlight: Option<GridCoord>) -> KeyLook {
    if highlight == Some(coord) {
        KeyLook::Highlighted
    } else if hints.contains(coord) {
        KeyLook::Hinted
    } else {
        KeyLook::Plain
    }
}

/// The look of the key at `coord` (see [`key_look`]).
pub fn key_look_at(coord: GridCoord, hints: &Vec<GridCoord>, highlight: Option<GridCoord>) -> (look: KeyLook)
    ensures
        look == key_look(coord, hints@, highlight),
{
    match highlight {
        Some(h) => {
            if h.0 == coord.0 && h.1 == coord.1 {
                return KeyLook::Highlighted;
            }
        },
        None => {},
    }
    let n = hints.len();
    for i in 0..n
        invariant
            n == hints@.len(),
            highlight != Some(coord),
            forall|j: int| 0 <= j < i ==> hints@[j] != coord,
    {
        let h = hints[i];
        if h.0 == coord.0 && h.1 == coord.1 {
            assert(h == coord);
            assert(hints@[i as int] == coord);
            assert(hints@.contains(coord));
            return KeyLook::Hinted;
        }
    }
    KeyLook::Plain
}

/// What the keyboard marks: the keys to type next, the key just typed and
/// whether it was right.
pub struct KeyboardMarks {
    pub hints: Vec<GridCoord>,
    pub highlight: Option<GridCoord>,
    pub highlight_correct: bool,
}

/// The grid position of the highlighted key, if it is on the grid.
pub open spec fn highlight_at(grid: Map<KeyCode, GridCoord>, key: Option<KeyCode>) -> Option<GridCoord> {
    match key {
        Some(k) => if grid.dom().contains(k) {
            Some(grid[k])
        } else {
            None
        },
        None => None,
    }
}

/// The marks on the keyboard for the state of `app`: hints for the
/// character to type next (see [`hint_view`]) and the highlighted key.
pub fn keyboard_marks(app: &App, grid: &GridMap) -> (marks: KeyboardMarks)
    requires
        app.wf(),
    ensures
        marks.hints@ == hint_view(
            grid@,
            match app@.document {
                Some(d) => expected_of(d),
                None => None,
            },
        ),
        marks.highlight == highlight_at(grid@, app.highlighted_key),
        marks.highlight_correct == app.last_correct,
{
    let expected = match &app.document {
        Some(d) => d.expected_char(),
        None => None,
    };
    let hints = hint_coords(grid, expected);
    let highlight = match app.highlighted_key {
        Some(code) => grid.get(&code),
        None => None,
    };
    KeyboardMarks { hints, highlight, highlight_correct: app.last_correct }
}

/// The shifted character a key shows above its main label.
pub open spec fn upper_label(k: KeyDef) -> Option<char> {
    match k.secondary {
        Some(KeyCode::Char(c)) => Some(c),
        _ => None,
    }
}

/// The shifted character a key shows (see [`upper_label`]).
pub fn upper_label_of(k: &KeyDef) -> (c: Option<char>)
    ensures
        c == upper_label(*k),
{
    match k.secondary {
        Some(KeyCode::Char(c)) => Some(c),
        _ => None,
    }
}

/// Where the labels of a key go inside its cell.
#[derive(Debug, Clone, Copy, PartialEq, Eq)]
pub struct LabelSpots {
    /// The main label, if its spot is inside the cell.
    pub main: Option<(u16, u16)>,
    /// The shifted character, if the key has one and its spot is inside.
    pub upper: Option<(u16, u16)>,
}

/// The spots of a key's labels: the main label centred across, on the
/// middle row, or on the last row when a one-character shifted label sits
/// centred on the first row above it; a spot outside the cell is dropped.
pub open spec fn label_spots(inner: Area, label_width: u16, has_upper: bool) -> LabelSpots {
    let cx = inner.x + (if inner.width >= label_width { inner.width - label_width } else { 0 }) / 2;
    if has_upper {
        let cy = inner.y + (if inner.height >= 1 { inner.height - 1 } else { 0 });
        let sx = inner.x + (if inner.width >= 1 { inner.width - 1 } else { 0 }) / 2;
        LabelSpots {
            main: if cx < inner.x + inner.width && cy < inner.y + inner.height {
                Some((cx as u16, cy as u16))
            } else {
                None
            },
            upper: if sx < inner.x + inner.width && inner.y < cy {
                Some((sx as u16, inner.y))
            } else {
                None
            },
        }
    } else {
        let cy = inner.y + inner.height / 2;
        LabelSpots {
            main: if cx < inner.x + inner.width && cy < inner.y + inner.height {
                Some((cx as u16, cy as u16))
            } else {
                None
            },
            upper: None,
        }
    }
}

/// The spots of a key's labels in the inside of its cell (see [`label_spots`]).
pub fn place_labels(inner: Area, label_width: u16, has_upper: bool) -> (spots: LabelSpots)
    requires
        inner.x + inner.width <= u16::MAX,
        inner.y + inner.height <= u16::MAX,
    ensures
        spots == label_spots(inner, label_width, has_upper),
{
    let cx = inner.x + inner.width.saturating_sub(label_width) / 2;
    if has_upper {
        let cy = inner.y + inner.height.saturating_sub(1);
        let sx = inner.x + inner.width.saturating_sub(1) / 2;
        let main = if cx < inner.x + inner.width && cy < inner.y + inner.height {
            Some((cx, cy))
        } else {
            None
        };
        let upper = if sx < inner.x + inner.width && inner.y < cy {
            Some((sx, inner.y))
        } else {
            None
        };
        LabelSpots { main, upper }
    } else {
        let cy = inner.y + inner.height / 2;
        let main = if cx < inner.x + inner.width && cy < inner.y + inner.height {
            Some((cx, cy))
        } else {
            None
        };
        LabelSpots { main, upper: None }
    }
}

/// How many cells a label takes: its number of characters, cut to a `u16`.
pub fn label_width(label: &str) -> (w: u16)
    ensures
        w == label@.len() as u16,
{
    let chars = chars_of(label);
    #[verifier::truncate]
    (chars.len() as u16)
}

// --- The header and the text panel ---

/// Minutes and seconds of a duration in milliseconds.
pub fn clock_parts(elapsed_ms: u64) -> (ms: (u64, u64))
    ensures
        ms.0 == elapsed_ms / 1000 / 60,
        ms.1 == elapsed_ms / 1000 % 60,
        ms.1 < 60,
{
    let secs = elapsed_ms / 1000;
    (secs / 60, secs % 60)
}

/// How the part of the line not yet typed is shown: after a miss, the wrong
/// character stands in place of the expected one and the cursor on the
/// character after it; else the cursor is on the expected character. Then
/// the rest of the line.
pub open spec fn pending_parts(pending: Seq<char>, error: Option<char>) -> (Option<char>, Option<char>, Seq<char>) {
    match error {
        Some(e) => (
            if pending.len() > 0 {
                Some(e)
            } else {
                None
            },
            if pending.len() > 1 {
                Some(pending[1])
            } else {
                None
            },
            if pending.len() > 2 {
                pending.skip(2)
            } else {
                Seq::empty()
            },
        ),
        None => (
            None,
            if pending.len() > 0 {
                Some(pending[0])
            } else {
                None
            },
            if pending.len() > 1 {
                pending.skip(1)
            } else {
                Seq::empty()
            },
        ),
    }
}

/// The line being typed, cut for display.
pub struct TypingLine {
    pub done: String,
    pub wrong: Option<char>,
    pub cursor: Option<char>,
    pub rest: String,
    /// The next two non-blank lines.
    pub upcoming: Vec<String>,
}

/// What the text panel shows.
pub enum TextPanel {
    /// Nothing while the file path is typed.
    Hidden,
    Error(String),
    /// The lesson menu.
    Menu,
    /// The summary of a finished text, with its weakest keys.
    Finished { correct: u32, total: u32, weakest: Vec<(char, u32, u32)> },
    Typing(TypingLine),
}

/// How many rows the text panel takes: room for the lessons and the other
/// entries of the menu, or seven.
pub fn panel_height(app: &App) -> (h: u16)
    ensures
        h == if app.document is None && app.error is None {
            24u16
        } else {
            7u16
        },
{
    if app.document.is_none() && app.error.is_none() {
        (crate::lessons::lesson_count() as u16) + 9
    } else {
        7
    }
}

/// A panel `height` rows high, centred in `area` top to bottom: a band of
/// the area's rows, as wide as the area.
pub fn centered_panel(area: Area, height: u16) -> (panel: Area)
    ensures
        laid_out(area, true, true, seq![Size::Length(height)], seq![panel]),
        band_of(panel, fitted(area), true),
{
    let sizes = vec![Size::Length(height)];
    assert(sizes@ =~= seq![Size::Length(height)]);
    let parts = split_area(area, Split::CenteredRows, &sizes);
    proof {
        assert(band_of(parts@[0], fitted(area), true));
        assert(parts@ =~= seq![parts@[0]]);
    }
    parts[0]
}

/// The three parts of the header, left to right: the counts and the clock
/// are given 30% each, the title the rest; each is a band of the area's
/// columns, as high as the area.
pub fn header_parts(area: Area) -> (parts: (Area, Area, Area))
    ensures
        laid_out(
            area,
            false,
            false,
            seq![Size::Percentage(30), Size::Min(0), Size::Percentage(30)],
            seq![parts.0, parts.1, parts.2],
        ),
        band_of(parts.0, fitted(area), false),
        band_of(parts.1, fitted(area), false),
        band_of(parts.2, fitted(area), false),
{
    let sizes = vec![Size::Percentage(30), Size::Min(0), Size::Percentage(30)];
    assert(sizes@ =~= seq![Size::Percentage(30), Size::Min(0), Size::Percentage(30)]);
    let p = split_area(area, Split::Columns, &sizes);
    proof {
        assert(p@ =~= seq![p@[0], p@[1], p@[2]]);
        assert(band_of(p@[0], fitted(area), false));
        assert(band_of(p@[1], fitted(area), false));
        assert(band_of(p@[2], fitted(area), false));
    }
    (p[0], p[1], p[2])
}

/// The sessions the history view lists, newest first, by index in the
/// history (oldest first): from the session scrolled to (the newest when the
/// scroll is past the end) down, at most `show` of them.
pub open spec fn history_rows_view(len: int, scroll: int, show: int) -> Seq<int> {
    let skip = if len > scroll + 1 {
        len - (scroll + 1)
    } else {
        0
    };
    let count = if len - skip < show {
        len - skip
    } else {
        show
    };
    Seq::new(count as nat, |i: int| len - 1 - skip - i)
}

/// The sessions the history view lists (see [`history_rows_view`]).
pub fn history_rows(len: usize, scroll: usize, show: usize) -> (rows: Vec<usize>)
    requires
        scroll < usize::MAX,
    ensures
        rows@.map_values(|i: usize| i as int) == history_rows_view(len as int, scroll as int, show as int),
{
    let skip = len.saturating_sub(scroll + 1);
    let available = len - skip;
    let count = if available < show {
        available
    } else {
        show
    };
    let mut rows: Vec<usize> = Vec::new();
    for i in 0..count
        invariant
            skip <= len,
            count <= len - skip,
            rows@.len() == i,
            forall|j: int| 0 <= j < i ==> #[trigger] rows@[j] as int == len - 1 - skip - j,
    {
        rows.push(len - 1 - skip - i);
    }
    assert(rows@.map_values(|i: usize| i as int) =~= history_rows_view(len as int, scroll as int, show as int));
    rows
}

/// What the text panel shows for the state of `app`: nothing while the file
/// path is typed; else an error if there is one; else the menu without a
/// text, the summary of a finished text, or the line being typed.
pub fn text_panel(app: &App) -> (panel: TextPanel)
    requires
        app.wf(),
    ensures
        app.searching <==> panel is Hidden,
        !app.searching && app.error is Some ==> (panel matches TextPanel::Error(m) && m@ == app.error.unwrap()@),
        panel is Error ==> app.error is Some,
        !app.searching && app.error is None ==> (app.document is None <==> panel is Menu),
        panel matches TextPanel::Finished { correct, total, weakest } ==> correct == app.correct_count
            && total == app.total_count && crate::app::finished(app@) && worst_spec(app.key_stats@, weakest@, 5),
        !app.searching && app.error is None && crate::app::finished(app@) ==> panel is Finished,
        panel matches TextPanel::Typing(t) ==> (app.document matches Some(d) && {
            &&& !crate::app::finished(app@)
            &&& t.done@ == d@.current.take(d@.char_idx)
            &&& (t.wrong, t.cursor, t.rest@) == pending_parts(d@.current.skip(d@.char_idx), app.last_error_char)
            &&& t.upcoming@.map_values(|l: String| l@) == crate::document::upcoming_view(d@, 2)
        }),
{
    if app.searching {
        return TextPanel::Hidden;
    }
    match &app.error {
        Some(e) => {
            return TextPanel::Error(e.clone());
        },
        None => {},
    }
    match &app.document {
        None => TextPanel::Menu,
        Some(doc) => {
            if doc.progress() == Progress::Finished {
                TextPanel::Finished {
                    correct: app.correct_count,
                    total: app.total_count,
                    weakest: app.worst_keys(5),
                }
            } else {
                proof {
                    doc.lemma_wf();
                }
                TextPanel::Typing(typing_line(doc, app.last_error_char))
            }
        },
    }
}

/// The line being typed, cut at the cursor for display: the characters
/// before it are typed, those from it on are pending.
fn typing_line(doc: &crate::document::Document, error: Option<char>) -> (t: TypingLine)
    requires
        doc@.char_idx <= doc@.current.len(),
    ensures
        t.done@ == doc@.current.take(doc@.char_idx),
        (t.wrong, t.cursor, t.rest@) == pending_parts(doc@.current.skip(doc@.char_idx), error),
        t.upcoming@.map_values(|l: String| l@) == crate::document::upcoming_view(doc@, 2),
{
    let pos = doc.cursor_position();
    let chars = chars_of(doc.line());
    let n = chars.len();
    let ghost pending = chars@.skip(pos as int);
    let mut done = String::new();
    for i in 0..pos
        invariant
            pos <= n,
            n == chars@.len(),
            done@ == chars@.take(i as int),
    {
        crate::text::push_char(&mut done, chars[i]);
        assert(chars@.take(i + 1) == chars@.take(i as int).push(chars@[i as int]));
    }
    let left = n - pos;
    let (wrong, cursor, skip) = match error {
        Some(e) => {
            let wrong = if left > 0 {
                Some(e)
            } else {
                None
            };
            let cursor = if left > 1 {
                Some(chars[pos + 1])
            } else {
                None
            };
            (wrong, cursor, 2usize)
        },
        None => {
            let cursor = if left > 0 {
                Some(chars[pos])
            } else {
                None
            };
            (None, cursor, 1usize)
        },
    };
    let mut rest = String::new();
    if left > skip {
        let start = pos + skip;
        let mut i = start;
        while i < n
            invariant
                start <= i <= n,
                n == chars@.len(),
                rest@ == chars@.subrange(start as int, i as int),
            decreases n - i,
        {
            crate::text::push_char(&mut rest, chars[i]);
            assert(chars@.subrange(start as int, i + 1) == chars@.subrange(start as int, i as int).push(chars@[i as int]));
            i += 1;
        }
        assert(chars@.subrange(start as int, n as int) == pending.skip(skip as int));
    }
    let lines = doc.upcoming_lines(2);
    let mut upcoming: Vec<String> = Vec::new();
    let m = lines.len();
    for i in 0..m
        invariant
            m == lines@.len(),
            upcoming@.len() == i,
            forall|j: int| 0 <= j < i ==> #[trigger] upcoming@[j]@ == lines@[j]@,
    {
        let src: &str = lines[i];
        upcoming.push(src.to_owned());
    }
    assert(upcoming@.map_values(|l: String| l@) =~= lines@.map_values(|s: &str| s@));
    TypingLine { done, wrong, cursor, rest, upcoming }
}

} // verus!
