//! The application state and how each key press or tick changes it.
//!
//! Reading files, saving and loading history and the clock are outside work:
//! the state machine asks for it with an [`Action`], and is told the time of
//! each event and the outcome of a load.
use vstd::prelude::*;

use crate::document::{advance_view, expected_of, start_view, Document, DocumentView, Progress};
use crate::keys::{InputEvent, KeyCode, KeyEvent};
use crate::lessons::{layout_lessons, lesson_count, lessons_for_layout, menu_lessons, shared_lessons, resume_position, resume_spec, sessions_view};
use crate::settings::{default_display, next_layout, other_theme, DisplaySettings, KeyboardLayout};
use crate::stats::{counted, key_total, worst_spec, KeyStats};
use crate::text::{ascii_upper, is_white_space, is_whitespace, pop_char, push_char, text_lines, to_ascii_uppercase};

verus! {

/// How long the last typed key stays highlighted, in milliseconds.
pub const HIGHLIGHT_MS: u64 = 400;

/// Bits of [`crate::keys::KeyModifiers`] for Control alone.
pub const CONTROL_BITS: u8 = 2;

/// What a session amounts to when it is saved.
#[derive(Debug, Clone, PartialEq, Eq)]
pub struct SessionSummary {
    pub correct: u32,
    pub total: u32,
    pub elapsed_ms: u64,
    pub completed: bool,
    pub lesson: String,
}

/// The abstract value of a [`SessionSummary`].
pub struct SummaryView {
    pub correct: u32,
    pub total: u32,
    pub elapsed_ms: u64,
    pub completed: bool,
    pub lesson: Seq<char>,
}

impl View for SessionSummary {
    type V = SummaryView;

    open spec fn view(&self) -> SummaryView {
        SummaryView {
            correct: self.correct,
            total: self.total,
            elapsed_ms: self.elapsed_ms,
            completed: self.completed,
            lesson: self.lesson@,
        }
    }
}

/// Outside work that an event calls for.
#[derive(Debug, Clone, PartialEq, Eq)]
pub enum Action {
    /// Nothing to do.
    Continue,
    /// Leave the application.
    Quit,
    /// Append this session to the history.
    SaveSession(SessionSummary),
    /// Append this session to the history, then leave the application.
    SaveAndQuit(SessionSummary),
    /// Save the keyboard layout and the display settings, which changed.
    SaveSettings,
    /// Read the file at this path and hand the outcome to [`App::file_loaded`].
    LoadFile(String),
    /// Load the history and hand its length to [`App::history_loaded`].
    LoadHistory,
}

/// The abstract value of an [`Action`].
pub enum ActionView {
    Continue,
    Quit,
    SaveSession(SummaryView),
    SaveAndQuit(SummaryView),
    SaveSettings,
    LoadFile(Seq<char>),
    LoadHistory,
}

impl View for Action {
    type V = ActionView;

    open spec fn view(&self) -> ActionView {
        match self {
            Action::Continue => ActionView::Continue,
            Action::Quit => ActionView::Quit,
            Action::SaveSession(s) => ActionView::SaveSession(s@),
            Action::SaveAndQuit(s) => ActionView::SaveAndQuit(s@),
            Action::SaveSettings => ActionView::SaveSettings,
            Action::LoadFile(p) => ActionView::LoadFile(p@),
            Action::LoadHistory => ActionView::LoadHistory,
        }
    }
}

impl Action {
    /// Whether the application is to quit (after saving, for
    /// [`Action::SaveAndQuit`]).
    pub fn is_quit(&self) -> (b: bool)
        ensures
            b == (self@ is Quit || self@ is SaveAndQuit),
    {
        match self {
            Action::Quit => true,
            Action::SaveAndQuit(_) => true,
            _ => false,
        }
    }
}

/// The application state.
pub struct App {
    pub document: Option<Document>,
    pub file_path_buf: String,
    pub searching: bool,
    pub error: Option<String>,
    pub correct_count: u32,
    pub total_count: u32,
    pub last_correct: bool,
    pub last_error_char: Option<char>,
    pub highlighted_key: Option<KeyCode>,
    /// When the highlight ends, in milliseconds of the caller's clock.
    pub highlight_until: Option<u64>,
    /// When the first key of the session was typed.
    pub start_time: Option<u64>,
    /// When the text was finished.
    pub end_time: Option<u64>,
    pub key_stats: KeyStats,
    pub viewing_history: bool,
    /// How many sessions the history holds.
    pub history_len: usize,
    pub history_scroll: usize,
    pub selected_lesson: usize,
    pub lesson_name: String,
    /// The menu position of the built-in lesson being typed; none for a
    /// text read from a file.
    pub lesson_index: Option<usize>,
    pub layout: KeyboardLayout,
    pub display: DisplaySettings,
}

/// The abstract state of an [`App`].
pub struct AppView {
    pub document: Option<DocumentView>,
    pub file_path: Seq<char>,
    pub searching: bool,
    pub error: Option<Seq<char>>,
    pub correct_count: u32,
    pub total_count: u32,
    pub last_correct: bool,
    pub last_error_char: Option<char>,
    pub highlighted_key: Option<KeyCode>,
    pub highlight_until: Option<u64>,
    pub start_time: Option<u64>,
    pub end_time: Option<u64>,
    pub key_stats: Map<char, (u32, u32)>,
    pub viewing_history: bool,
    pub history_len: usize,
    pub history_scroll: usize,
    pub selected_lesson: usize,
    pub lesson_name: Seq<char>,
    pub lesson_index: Option<usize>,
    pub layout: KeyboardLayout,
    pub display: DisplaySettings,
}

impl View for App {
    type V = AppView;

    open spec fn view(&self) -> AppView {
        AppView {
            document: match self.document {
                Some(d) => Some(d@),
                None => None,
            },
            file_path: self.file_path_buf@,
            searching: self.searching,
            error: match self.error {
                Some(e) => Some(e@),
                None => None,
            },
            correct_count: self.correct_count,
            total_count: self.total_count,
            last_correct: self.last_correct,
            last_error_char: self.last_error_char,
            highlighted_key: self.highlighted_key,
            highlight_until: self.highlight_until,
            start_time: self.start_time,
            end_time: self.end_time,
            key_stats: self.key_stats@,
            viewing_history: self.viewing_history,
            history_len: self.history_len,
            history_scroll: self.history_scroll,
            selected_lesson: self.selected_lesson,
            lesson_name: self.lesson_name@,
            lesson_index: self.lesson_index,
            layout: self.layout,
            display: self.display,
        }
    }
}

// --- The transitions, on abstract states ---

/// The state right after start-up.
pub open spec fn initial_view() -> AppView {
    AppView {
        document: None,
        file_path: Seq::empty(),
        searching: false,
        error: None,
        correct_count: 0,
        total_count: 0,
        last_correct: false,
        last_error_char: None,
        highlighted_key: None,
        highlight_until: None,
        start_time: None,
        end_time: None,
        key_stats: Map::empty(),
        viewing_history: false,
        history_len: 0,
        history_scroll: 0,
        selected_lesson: 0,
        lesson_name: Seq::empty(),
        lesson_index: None,
        layout: KeyboardLayout::Qwerty,
        display: default_display(),
    }
}

/// Whether the text being typed is finished.
pub open spec fn finished(a: AppView) -> bool {
    a.document matches Some(d) && d.progress == Progress::Finished
}

/// Milliseconds from the first keystroke to the end of the text, or to `now`
/// while the text is not finished; 0 before the first keystroke.
pub open spec fn elapsed_view(a: AppView, now: u64) -> u64 {
    match a.start_time {
        None => 0,
        Some(start) => {
            let end = match a.end_time {
                Some(e) => e,
                None => now,
            };
            if end >= start {
                (end - start) as u64
            } else {
                0
            }
        },
    }
}

/// The summary of the session so far.
pub open spec fn summary_view(a: AppView, completed: bool, now: u64) -> SummaryView {
    SummaryView {
        correct: a.correct_count,
        total: a.total_count,
        elapsed_ms: elapsed_view(a, now),
        completed,
        lesson: a.lesson_name,
    }
}

/// The session to save: nothing when no key was typed.
pub open spec fn save_view(a: AppView, completed: bool, now: u64) -> ActionView {
    if a.total_count == 0 {
        ActionView::Continue
    } else {
        ActionView::SaveSession(summary_view(a, completed, now))
    }
}

/// Leaving at once: an unfinished session with keystrokes is saved first.
pub open spec fn quit_view(a: AppView, now: u64) -> ActionView {
    if a.document is Some && !finished(a) && a.total_count > 0 {
        ActionView::SaveAndQuit(summary_view(a, false, now))
    } else {
        ActionView::Quit
    }
}

/// Counters, timers and per-key statistics of a fresh session.
pub open spec fn cleared(a: AppView) -> AppView {
    AppView {
        correct_count: 0,
        total_count: 0,
        start_time: None,
        end_time: None,
        key_stats: Map::empty(),
        ..a
    }
}

/// Typing starts over at the beginning of the same text.
pub open spec fn restarted(a: AppView) -> AppView {
    let b = cleared(a);
    AppView {
        document: match a.document {
            Some(d) => Some(start_view(d.lines)),
            None => None,
        },
        last_error_char: None,
        ..b
    }
}

/// A text is opened: a fresh session over its lines, or the error of an
/// empty text. `index` is the menu position of a built-in lesson.
pub open spec fn opened(a: AppView, text: Seq<char>, name: Seq<char>, index: Option<usize>) -> AppView {
    let lines = text_lines(text);
    if lines.len() == 0 {
        AppView { error: Some("Text is empty"@), ..a }
    } else {
        let b = cleared(a);
        AppView {
            document: Some(start_view(lines)),
            error: None,
            lesson_name: name,
            lesson_index: index,
            ..b
        }
    }
}

/// The outcome of reading a file, as text or error message.
pub open spec fn loaded_view(loaded: Result<String, String>) -> Result<Seq<char>, Seq<char>> {
    match loaded {
        Ok(text) => Ok(text@),
        Err(e) => Err(e@),
    }
}

/// A file was read (its text is opened under `name`) or could not be (its
/// error is shown).
pub open spec fn file_loaded_view(a: AppView, name: Seq<char>, loaded: Result<Seq<char>, Seq<char>>) -> AppView {
    match loaded {
        Ok(text) => opened(a, text, name, None),
        Err(e) => AppView { error: Some(e), ..a },
    }
}

/// The history holds `len` sessions; the view scrolls to the last one.
pub open spec fn history_loaded_view(a: AppView, len: usize) -> AppView {
    AppView {
        history_len: len,
        history_scroll: if len > 0 {
            (len - 1) as usize
        } else {
            0
        },
        ..a
    }
}

/// A key while the file path is typed.
pub open spec fn search_step(a: AppView, key: KeyEvent) -> (AppView, ActionView) {
    match key.code {
        KeyCode::Enter => (
            AppView { searching: false, file_path: Seq::empty(), ..a },
            ActionView::LoadFile(a.file_path),
        ),
        KeyCode::Esc => (AppView { searching: false, file_path: Seq::empty(), ..a }, ActionView::Continue),
        _ => if key.modifiers.bits == CONTROL_BITS {
            (a, ActionView::Continue)
        } else {
            match key.code {
                KeyCode::Char(c) => (AppView { file_path: a.file_path.push(c), ..a }, ActionView::Continue),
                KeyCode::Backspace => (
                    AppView {
                        file_path: if a.file_path.len() > 0 {
                            a.file_path.drop_last()
                        } else {
                            a.file_path
                        },
                        ..a
                    },
                    ActionView::Continue,
                ),
                _ => (a, ActionView::Continue),
            }
        },
    }
}

/// Escape: leave the history, quit from the menu, or leave the text (saving
/// an unfinished session) for the menu.
pub open spec fn esc_step(a: AppView, now: u64) -> (AppView, ActionView) {
    if a.viewing_history {
        (AppView { viewing_history: false, ..a }, ActionView::Continue)
    } else if a.document is None && a.error is None {
        (a, ActionView::Quit)
    } else {
        let act = if !finished(a) {
            save_view(a, false, now)
        } else {
            ActionView::Continue
        };
        let b = cleared(a);
        (AppView { document: None, error: None, last_error_char: None, ..b }, act)
    }
}

/// Up and down move through the history, staying within it.
pub open spec fn history_step(a: AppView, code: KeyCode) -> AppView {
    if code == KeyCode::Up || code == KeyCode::Char('k') {
        AppView {
            history_scroll: if a.history_scroll > 0 {
                (a.history_scroll - 1) as usize
            } else {
                0
            },
            ..a
        }
    } else if code == KeyCode::Down || code == KeyCode::Char('j') {
        if a.history_scroll + 1 < a.history_len {
            AppView { history_scroll: (a.history_scroll + 1) as usize, ..a }
        } else {
            a
        }
    } else {
        a
    }
}

/// A key on the main menu.
pub open spec fn menu_step(a: AppView, code: KeyCode) -> (AppView, ActionView) {
    if code == KeyCode::Up || code == KeyCode::Char('k') {
        (
            AppView {
                selected_lesson: if a.selected_lesson > 0 {
                    (a.selected_lesson - 1) as usize
                } else {
                    0
                },
                ..a
            },
            ActionView::Continue,
        )
    } else if code == KeyCode::Down || code == KeyCode::Char('j') {
        if a.selected_lesson + 1 < 15 {
            (AppView { selected_lesson: (a.selected_lesson + 1) as usize, ..a }, ActionView::Continue)
        } else {
            (a, ActionView::Continue)
        }
    } else if code == KeyCode::Enter {
        if a.selected_lesson < 15 {
            let lesson = menu_lessons(a.layout)[a.selected_lesson as int];
            (opened(a, lesson.text@, lesson.title@, Some(a.selected_lesson)), ActionView::Continue)
        } else {
            (a, ActionView::Continue)
        }
    } else if code == KeyCode::Char('h') {
        (
            AppView {
                viewing_history: true,
                history_scroll: if a.history_len > 0 {
                    (a.history_len - 1) as usize
                } else {
                    0
                },
                ..a
            },
            ActionView::LoadHistory,
        )
    } else if code == KeyCode::Char('l') {
        (AppView { layout: next_layout(a.layout), ..a }, ActionView::SaveSettings)
    } else if code == KeyCode::Char('1') {
        if a.display.show_hints {
            (
                AppView {
                    display: DisplaySettings { show_fingers: !a.display.show_fingers, ..a.display },
                    ..a
                },
                ActionView::SaveSettings,
            )
        } else {
            (a, ActionView::Continue)
        }
    } else if code == KeyCode::Char('2') {
        (
            AppView {
                display: DisplaySettings { show_hints: !a.display.show_hints, ..a.display },
                ..a
            },
            ActionView::SaveSettings,
        )
    } else if code == KeyCode::Char('3') {
        (
            AppView {
                display: DisplaySettings { show_keyboard: !a.display.show_keyboard, ..a.display },
                ..a
            },
            ActionView::SaveSettings,
        )
    } else if code == KeyCode::Char('4') {
        (
            AppView { display: DisplaySettings { theme: other_theme(a.display.theme), ..a.display }, ..a },
            ActionView::SaveSettings,
        )
    } else {
        (a, ActionView::Continue)
    }
}

/// The menu position after finishing the lesson at `i`: the next lesson,
/// or the last one again.
pub open spec fn next_position(i: usize) -> usize {
    if i + 1 < 15 {
        (i + 1) as usize
    } else {
        i
    }
}

/// The key shown as pressed for a typed character.
pub open spec fn highlight_of(typed: char) -> KeyCode {
    KeyCode::Char(
        if is_white_space(typed) {
            ' '
        } else {
            ascii_upper(typed)
        },
    )
}

/// A character typed into the text: a hit moves the cursor on (and saves the
/// session when the text is finished), a miss is remembered and blocks typing.
pub open spec fn typed_step(a: AppView, typed: char, now: u64) -> (AppView, ActionView) {
    match a.document {
        None => (a, ActionView::Continue),
        Some(d) => match expected_of(d) {
            None => (a, ActionView::Continue),
            Some(expected) => {
                let hit = typed == expected;
                let counts = counted(a.key_stats, expected, hit);
                let b = AppView {
                    start_time: if a.start_time is None {
                        Some(now)
                    } else {
                        a.start_time
                    },
                    total_count: (a.total_count + 1) as u32,
                    key_stats: a.key_stats.insert(expected, (counts.0 as u32, counts.1 as u32)),
                    highlight_until: Some((now + HIGHLIGHT_MS) as u64),
                    highlighted_key: Some(highlight_of(typed)),
                    last_correct: hit,
                    ..a
                };
                if hit {
                    let next = advance_view(d);
                    let c = AppView {
                        correct_count: (a.correct_count + 1) as u32,
                        last_error_char: None,
                        document: Some(next),
                        ..b
                    };
                    if next.progress == Progress::Finished {
                        let e = AppView {
                            end_time: Some(now),
                            selected_lesson: match a.lesson_index {
                                Some(i) => next_position(i),
                                None => a.selected_lesson,
                            },
                            ..c
                        };
                        (e, save_view(e, true, now))
                    } else {
                        (c, ActionView::Continue)
                    }
                } else {
                    (AppView { last_error_char: Some(typed), ..b }, ActionView::Continue)
                }
            },
        },
    }
}

/// A key press.
pub open spec fn key_step(a: AppView, key: KeyEvent, now: u64) -> (AppView, ActionView) {
    if a.searching {
        search_step(a, key)
    } else if key.code == KeyCode::Char('c') && key.modifiers.bits == CONTROL_BITS {
        (a, quit_view(a, now))
    } else if key.code == KeyCode::Char('f') && key.modifiers.bits == CONTROL_BITS {
        (AppView { searching: true, file_path: Seq::empty(), error: None, ..a }, ActionView::Continue)
    } else if key.code == KeyCode::Char('r') && key.modifiers.bits == CONTROL_BITS {
        if a.document is Some {
            (restarted(a), ActionView::Continue)
        } else {
            (a, ActionView::Continue)
        }
    } else if key.code == KeyCode::Esc && key.modifiers.bits == 0 {
        esc_step(a, now)
    } else if a.viewing_history {
        (history_step(a, key.code), ActionView::Continue)
    } else if a.document is None && a.error is None {
        menu_step(a, key.code)
    } else if key.code == KeyCode::Char('r') && finished(a) {
        (restarted(a), ActionView::Continue)
    } else if key.code is Char && a.last_error_char is None {
        typed_step(a, key.code->Char_0, now)
    } else if key.code == KeyCode::Backspace {
        (AppView { last_error_char: None, ..a }, ActionView::Continue)
    } else {
        (a, ActionView::Continue)
    }
}

/// Whether a key press is counted as a keystroke of the text: it reaches
/// [`typed_step`] while there is a character to type.
pub open spec fn counts_keystroke(a: AppView, key: KeyEvent) -> bool {
    &&& !a.searching
    &&& !((key.code == KeyCode::Char('c') || key.code == KeyCode::Char('f') || key.code == KeyCode::Char('r'))
        && key.modifiers.bits == CONTROL_BITS)
    &&& !(key.code == KeyCode::Esc && key.modifiers.bits == 0)
    &&& !a.viewing_history
    &&& !(a.document is None && a.error is None)
    &&& !(key.code == KeyCode::Char('r') && finished(a))
    &&& key.code is Char
    &&& a.last_error_char is None
    &&& a.document matches Some(d) && expected_of(d) is Some
}

/// Whether the keystroke counter can count one more: always, unless the
/// event is a key press that is counted (see [`counts_keystroke`]).
pub open spec fn room_to_count(a: AppView, event: InputEvent) -> bool {
    event matches InputEvent::Press(key) && counts_keystroke(a, key) ==> a.total_count < u32::MAX
}

/// Time passes: an expired highlight goes off.
pub open spec fn tick_step(a: AppView, now: u64) -> AppView {
    match a.highlight_until {
        Some(until) => if now >= until {
            AppView { highlighted_key: None, highlight_until: None, ..a }
        } else {
            a
        },
        None => a,
    }
}

/// An input event.
pub open spec fn event_step(a: AppView, event: InputEvent, now: u64) -> (AppView, ActionView) {
    match event {
        InputEvent::Tick => (tick_step(a, now), ActionView::Continue),
        InputEvent::Press(key) => key_step(a, key, now),
    }
}

// --- Laws of the state machine ---

/// A press of character `c` with the modifiers `bits`.
pub open spec fn char_press(c: char, bits: u8) -> KeyEvent {
    KeyEvent { code: KeyCode::Char(c), modifiers: crate::keys::KeyModifiers { bits } }
}

/// After a wrong keystroke, typing changes nothing (neither the text nor any
/// count) until the error is cleared; Backspace clears it and changes
/// nothing else.
pub proof fn lemma_miss_blocks_typing(a: AppView, c: char, bits: u8, now: u64)
    requires
        a.last_error_char is Some,
        !a.searching,
        !a.viewing_history,
        a.document is Some,
        !finished(a),
        !(bits == CONTROL_BITS && (c == 'f' || c == 'r' || c == 'c')),
    ensures
        key_step(a, char_press(c, bits), now) == (a, ActionView::Continue),
        key_step(a, KeyEvent { code: KeyCode::Backspace, modifiers: crate::keys::KeyModifiers { bits } }, now)
            == (AppView { last_error_char: None, ..a }, ActionView::Continue),
{
}

/// Whether the main menu is shown and takes the keys: no text, no error,
/// no file prompt and no history.
pub open spec fn on_menu(a: AppView) -> bool {
    a.document is None && a.error is None && !a.searching && !a.viewing_history
}

/// On the main menu, each display toggle (`1`, `2`, `3`, `4`) pressed twice, and
/// the layout key `l` pressed three times, give back the state they started
/// from; each press that changes a setting asks for the settings to be
/// saved, and no press asks for other outside work.
pub proof fn lemma_menu_toggles_undo(a: AppView, bits: u8, now1: u64, now2: u64, now3: u64)
    requires
        on_menu(a),
        bits != CONTROL_BITS,
    ensures
        forall|c: char| (c == '1' || c == '2' || c == '3' || c == '4') ==> {
            let (b, act1) = key_step(a, #[trigger] char_press(c, bits), now1);
            let (d, act2) = key_step(b, char_press(c, bits), now2);
            &&& d == a
            &&& act1 == act2
            &&& if c == '1' && !a.display.show_hints {
                b == a && act1 == ActionView::Continue
            } else {
                b != a && act1 == ActionView::SaveSettings
            }
        },
        ({
            let (b, act1) = key_step(a, char_press('l', bits), now1);
            let (d, act2) = key_step(b, char_press('l', bits), now2);
            let (e, act3) = key_step(d, char_press('l', bits), now3);
            &&& e == a
            &&& act1 == ActionView::SaveSettings && act2 == ActionView::SaveSettings && act3 == ActionView::SaveSettings
        }),
{
    crate::settings::lemma_cycle_period(a.layout);
}

/// A character typed into the text is typed whatever modifiers are held
/// (Shift for a capital, say), other than the Control shortcuts: the press
/// counts one keystroke; a hit counts as correct and moves the cursor on, a
/// miss is remembered and leaves the cursor where it was.
pub proof fn lemma_typed_whatever_modifiers(a: AppView, c: char, bits: u8, now: u64)
    requires
        !a.searching,
        !a.viewing_history,
        a.last_error_char is None,
        a.document matches Some(d) && expected_of(d) is Some,
        !(bits == CONTROL_BITS && (c == 'c' || c == 'f' || c == 'r')),
        !(c == 'r' && finished(a)),
        a.total_count < u32::MAX,
        a.correct_count < u32::MAX,
    ensures
        key_step(a, char_press(c, bits), now) == key_step(a, char_press(c, 0), now),
        ({
            let b = key_step(a, char_press(c, bits), now).0;
            let d = a.document->Some_0;
            &&& b.total_count == a.total_count + 1
            &&& expected_of(d) == Some(c) ==> b.correct_count == a.correct_count + 1 && b.document == Some(
                advance_view(d),
            ) && b.last_error_char is None
            &&& expected_of(d) != Some(c) ==> b.correct_count == a.correct_count && b.document == a.document
                && b.last_error_char == Some(c)
        }),
{
}

/// Every press that counts as a keystroke adds one to the keystrokes.
pub proof fn lemma_counted_press_adds_one(a: AppView, key: KeyEvent, now: u64)
    requires
        counts_keystroke(a, key),
        a.total_count < u32::MAX,
    ensures
        key_step(a, key, now).0.total_count == a.total_count + 1,
{
}

/// Enter on the menu opens the lesson under the cursor for the app's own
/// keyboard layout: one of that layout's nine drills, or one of the six
/// shared lessons; its text starts a fresh session under the lesson's
/// title, or is reported when it has no line.
pub proof fn lemma_enter_opens_layout_lesson(a: AppView, bits: u8, now: u64)
    requires
        on_menu(a),
        a.selected_lesson < 15,
    ensures
        ({
            let i = a.selected_lesson as int;
            let lesson = if i < 9 {
                layout_lessons(a.layout)[i]
            } else {
                shared_lessons()[i - 9]
            };
            let lines = text_lines(lesson.text@);
            let (b, act) = key_step(a, KeyEvent { code: KeyCode::Enter, modifiers: crate::keys::KeyModifiers { bits } }, now);
            &&& act == ActionView::Continue
            &&& lines.len() > 0 ==> {
                &&& b.document == Some(start_view(lines))
                &&& b.lesson_name == lesson.title@
                &&& b.lesson_index == Some(a.selected_lesson)
                &&& b.error is None
                &&& b.total_count == 0 && b.correct_count == 0
                &&& b.key_stats == Map::<char, (u32, u32)>::empty()
            }
            &&& lines.len() == 0 ==> b.document is None && b.error == Some("Text is empty"@)
        }),
{
    let i = a.selected_lesson as int;
    if i >= 9 {
        assert(menu_lessons(a.layout)[i] == shared_lessons()[i - 9]);
    }
}

/// Opening the file prompt with Ctrl-F and leaving it with Escape changes
/// nothing but the message shown, which goes, and the path typed, which is
/// empty; neither key asks for outside work.
pub proof fn lemma_prompt_cancel(a: AppView, now1: u64, now2: u64)
    requires
        !a.searching,
        a.file_path.len() == 0,
    ensures
        ({
            let (b, act1) = key_step(a, char_press('f', CONTROL_BITS), now1);
            let (d, act2) = key_step(b, KeyEvent { code: KeyCode::Esc, modifiers: crate::keys::KeyModifiers { bits: 0 } }, now2);
            d == AppView { error: None, ..a } && act1 == ActionView::Continue && act2 == ActionView::Continue
        }),
{
    assert(a.file_path =~= Seq::empty());
}

/// The hits of all keys add up to the correct keystrokes, and their misses
/// to the wrong ones.
pub open spec fn counts_add_up(a: AppView) -> bool {
    &&& a.key_stats.dom().finite()
    &&& key_total(a.key_stats, true) == a.correct_count
    &&& key_total(a.key_stats, false) == a.total_count - a.correct_count
}

/// Whether the menu cursor, and the lesson being typed if it is built in,
/// are on lessons of the menu.
pub open spec fn selection_in_menu(a: AppView) -> bool {
    &&& a.selected_lesson < 15
    &&& a.lesson_index matches Some(i) ==> i < 15
}

/// Whether the history cursor is on a session, or at 0 for an empty history.
pub open spec fn scroll_in_history(a: AppView) -> bool {
    a.history_scroll < a.history_len || (a.history_len == 0 && a.history_scroll == 0)
}

/// The menu cursor stays on a lesson, and the history cursor on a session,
/// whatever the events and loads.
pub proof fn lemma_cursors_stay_in_range(a: AppView, e: InputEvent, now: u64, len: usize)
    ensures
        selection_in_menu(a) ==> selection_in_menu(event_step(a, e, now).0),
        scroll_in_history(a) ==> scroll_in_history(event_step(a, e, now).0),
        scroll_in_history(history_loaded_view(a, len)),
{
}

/// A session is saved as completed exactly by the keystroke that finishes
/// its text, with the counts that include that keystroke; and a finished
/// text is never saved again as unfinished, not even on leaving at once.
pub proof fn lemma_saved_once(a: AppView, e: InputEvent, now: u64)
    requires
        a.document matches Some(d) ==> d.well_formed(),
        now <= u64::MAX - HIGHLIGHT_MS,
        a.total_count < u32::MAX,
    ensures
        ({
            let (b, act) = event_step(a, e, now);
            &&& (act matches ActionView::SaveSession(s) && s.completed) <==> (!finished(a) && finished(b) && b.document is Some && a.document is Some && e is Press)
            &&& (act matches ActionView::SaveSession(s) ==> (s.completed ==> s.correct == b.correct_count && s.total == b.total_count))
            &&& finished(a) ==> !(act matches ActionView::SaveSession(s) && !s.completed)
            &&& finished(a) ==> !(act is SaveAndQuit)
            &&& act matches ActionView::SaveAndQuit(s) ==> !s.completed && !finished(a) && s.total > 0
        }),
{
    match e {
        InputEvent::Tick => {},
        InputEvent::Press(key) => {
            if a.searching {
            } else if key.code == KeyCode::Char('f') && key.modifiers.bits == CONTROL_BITS {
            } else if key.code == KeyCode::Char('r') && key.modifiers.bits == CONTROL_BITS {
            } else if key.code == KeyCode::Esc && key.modifiers.bits == 0 {
            } else if a.viewing_history {
            } else if a.document is None && a.error is None {
                let (b, act) = menu_step(a, key.code);
                assert(!(act is SaveSession));
                if key.code == KeyCode::Enter && a.selected_lesson < 15 {
                    let lesson = menu_lessons(a.layout)[a.selected_lesson as int];
                    assert(!finished(opened(a, lesson.text@, lesson.title@, Some(a.selected_lesson))));
                }
            } else if key.code == KeyCode::Char('r') && finished(a) {
            } else if key.code is Char && a.last_error_char is None {
                let (b, act) = typed_step(a, key.code->Char_0, now);
            } else {
            }
        },
    }
}

/// Whether no key was tried more often than keys were typed, nor more
/// often than a `u32` can count.
pub open spec fn tries_bounded(a: AppView) -> bool {
    forall|c: char| #[trigger] a.key_stats.dom().contains(c) ==> a.key_stats[c].0 + a.key_stats[c].1 <= a.total_count
}

/// Every event keeps the hits of all keys adding up to the correct
/// keystrokes and their misses to the wrong ones (see [`counts_add_up`]),
/// with no key tried more often than keys were typed; and so does the
/// outcome of reading a file.
pub proof fn lemma_counts_stay_added_up(a: AppView, e: InputEvent, now: u64, name: Seq<char>, loaded: Result<Seq<char>, Seq<char>>)
    requires
        counts_add_up(a),
        tries_bounded(a),
        a.correct_count <= a.total_count,
        a.total_count < u32::MAX,
    ensures
        counts_add_up(event_step(a, e, now).0),
        tries_bounded(event_step(a, e, now).0),
        event_step(a, e, now).0.correct_count <= event_step(a, e, now).0.total_count,
        counts_add_up(file_loaded_view(a, name, loaded)),
        tries_bounded(file_loaded_view(a, name, loaded)),
{
    crate::stats::lemma_totals_empty();
    match e {
        InputEvent::Tick => {},
        InputEvent::Press(key) => {
            if !a.searching && !(key.code == KeyCode::Char('c') && key.modifiers.bits == CONTROL_BITS)
                && !(key.code == KeyCode::Char('f') && key.modifiers.bits == CONTROL_BITS)
                && !(key.code == KeyCode::Char('r') && key.modifiers.bits == CONTROL_BITS)
                && !(key.code == KeyCode::Esc && key.modifiers.bits == 0) && !a.viewing_history
                && !(a.document is None && a.error is None) && !(key.code == KeyCode::Char('r') && finished(a))
                && key.code is Char && a.last_error_char is None {
                match a.document {
                    Some(d) => match expected_of(d) {
                        Some(expected) => {
                            let hit = key.code->Char_0 == expected;
                            if a.key_stats.dom().contains(expected) {
                                assert(a.key_stats[expected].0 + a.key_stats[expected].1 <= a.total_count);
                            }
                            crate::stats::lemma_total_counted(a.key_stats, expected, hit);
                            let b = typed_step(a, key.code->Char_0, now).0;
                            assert forall|c: char| #[trigger] b.key_stats.dom().contains(c) implies b.key_stats[c].0
                                + b.key_stats[c].1 <= b.total_count by {
                                if c != expected {
                                    assert(a.key_stats.dom().contains(c));
                                }
                            }
                        },
                        None => {},
                    },
                    None => {},
                }
            }
        },
    }
}

impl App {
    /// Whether the state is consistent: a consistent document that has not
    /// run past its end, the menu cursor and the lesson being typed on
    /// lessons of the menu, no more hits than keystrokes, the per-key counts
    /// adding up to the keystrokes (see [`counts_add_up`]), and no key tried
    /// more often than keys were typed.
    pub open spec fn wf(&self) -> bool {
        &&& counts_add_up(self@)
        &&& self.document matches Some(d) ==> d.wf() && d@.line_idx <= d@.lines.len()
        &&& self.selected_lesson < 15
        &&& self.lesson_index matches Some(i) ==> i < 15
        &&& self.correct_count <= self.total_count
        &&& tries_bounded(self@)
    }

    /// The state after start-up (see [`initial_view`]).
    pub fn new() -> (app: Self)
        ensures
            app.wf(),
            app@ == initial_view(),
    {
        proof {
            crate::stats::lemma_totals_empty();
        }
        App {
            document: None,
            file_path_buf: String::new(),
            searching: false,
            error: None,
            correct_count: 0,
            total_count: 0,
            last_correct: false,
            last_error_char: None,
            highlighted_key: None,
            highlight_until: None,
            start_time: None,
            end_time: None,
            key_stats: KeyStats::new(),
            viewing_history: false,
            history_len: 0,
            history_scroll: 0,
            selected_lesson: 0,
            lesson_name: String::new(),
            lesson_index: None,
            layout: KeyboardLayout::Qwerty,
            display: DisplaySettings::default(),
        }
    }

    /// Milliseconds of typing so far (see [`elapsed_view`]).
    pub fn elapsed_ms(&self, now: u64) -> (ms: u64)
        ensures
            ms == elapsed_view(self@, now),
    {
        match self.start_time {
            None => 0,
            Some(start) => {
                let end = match self.end_time {
                    Some(e) => e,
                    None => now,
                };
                if end >= start {
                    end - start
                } else {
                    0
                }
            },
        }
    }

    /// Whether the text being typed is finished.
    pub fn is_finished(&self) -> (b: bool)
        ensures
            b == finished(self@),
    {
        match &self.document {
            Some(d) => d.progress() == Progress::Finished,
            None => false,
        }
    }

    /// The session to save, if any key was typed (see [`save_view`]).
    fn session(&self, completed: bool, now: u64) -> (act: Action)
        ensures
            act@ == save_view(self@, completed, now),
    {
        if self.total_count == 0 {
            Action::Continue
        } else {
            Action::SaveSession(
                SessionSummary {
                    correct: self.correct_count,
                    total: self.total_count,
                    elapsed_ms: self.elapsed_ms(now),
                    completed,
                    lesson: self.lesson_name.clone(),
                },
            )
        }
    }

    /// The session to save when the application is left in the middle of a
    /// text: nothing without a text, for a finished one (it was saved when it
    /// was finished), or when no key was typed.
    pub fn save_on_exit(&self, now: u64) -> (s: Option<SessionSummary>)
        ensures
            s is Some <==> (self@.document is Some && !finished(self@) && self@.total_count > 0),
            s matches Some(summary) ==> save_view(self@, false, now) == ActionView::SaveSession(summary@),
    {
        if self.document.is_some() && !self.is_finished() {
            match self.session(false, now) {
                Action::SaveSession(summary) => Some(summary),
                _ => None,
            }
        } else {
            None
        }
    }

    /// Up to `count` weakest keys as (key, hits, misses) (see [`worst_spec`]).
    pub fn worst_keys(&self, count: usize) -> (res: Vec<(char, u32, u32)>)
        requires
            self.key_stats.attempts_fit(),
        ensures
            worst_spec(self@.key_stats, res@, count as int),
            forall|i: int| 0 <= i < res@.len() ==> #[trigger] res@[i].2 > 0 && res@[i].1 + res@[i].2 >= 2,
    {
        self.key_stats.worst_keys(count)
    }

    /// Counters, timers and statistics start over.
    fn clear_session(&mut self)
        ensures
            final(self)@ == cleared(old(self)@),
            final(self).document == old(self).document,
            counts_add_up(final(self)@),
    {
        proof {
            crate::stats::lemma_totals_empty();
        }
        self.correct_count = 0;
        self.total_count = 0;
        self.start_time = None;
        self.end_time = None;
        self.key_stats.clear();
    }

    /// Typing starts over at the beginning of the text.
    fn restart(&mut self)
        requires
            old(self).wf(),
        ensures
            final(self).wf(),
            final(self)@ == restarted(old(self)@),
    {
        match &mut self.document {
            Some(doc) => {
                doc.reset();
            },
            None => {},
        }
        self.clear_session();
        self.last_error_char = None;
    }

    /// Opens a text under a name (see [`opened`]).
    fn open_text(&mut self, text: &str, name: String, index: Option<usize>)
        requires
            old(self).wf(),
            index matches Some(i) ==> i < 15,
        ensures
            final(self).wf(),
            final(self)@ == opened(old(self)@, text@, name@, index),
    {
        match Document::from_text(text) {
            Ok(doc) => {
                proof {
                    doc.lemma_wf();
                }
                self.document = Some(doc);
                self.error = None;
                self.clear_session();
                self.lesson_name = name;
                self.lesson_index = index;
            },
            Err(e) => {
                self.error = Some(e);
            },
        }
    }

    /// The outcome of a [`Action::LoadFile`]: the contents of the file, or a
    /// message why it could not be read, and the name to show for it.
    pub fn file_loaded(&mut self, name: String, loaded: Result<String, String>)
        requires
            old(self).wf(),
        ensures
            final(self).wf(),
            final(self)@ == file_loaded_view(old(self)@, name@, loaded_view(loaded)),
    {
        match loaded {
            Ok(text) => self.open_text(text.as_str(), name, None),
            Err(e) => {
                self.error = Some(e);
            },
        }
    }

    /// The outcome of a [`Action::LoadHistory`]: how many sessions there are;
    /// the view scrolls to the last one.
    pub fn history_loaded(&mut self, len: usize)
        requires
            old(self).wf(),
        ensures
            final(self).wf(),
            final(self)@ == history_loaded_view(old(self)@, len),
    {
        self.history_len = len;
        self.history_scroll = if len > 0 {
            len - 1
        } else {
            0
        };
    }

    /// Points the menu cursor at the lesson to take up, from the saved
    /// sessions as (lesson, completed), oldest first (see [`resume_spec`]).
    pub fn resume_from(&mut self, sessions: &Vec<(String, bool)>)
        requires
            old(self).wf(),
        ensures
            final(self).wf(),
            final(self)@ == (AppView { selected_lesson: resume_spec(sessions_view(sessions@)) as usize, ..old(self)@ }),
    {
        self.selected_lesson = resume_position(sessions);
    }

    /// A key while the file path is typed (see [`search_step`]).
    fn handle_search_key(&mut self, key: KeyEvent) -> (act: Action)
        requires
            old(self).wf(),
            old(self).searching,
        ensures
            final(self).wf(),
            (final(self)@, act@) == search_step(old(self)@, key),
    {
        match key.code {
            KeyCode::Enter => {
                self.searching = false;
                let path = self.file_path_buf.clone();
                self.file_path_buf = String::new();
                Action::LoadFile(path)
            },
            KeyCode::Esc => {
                self.searching = false;
                self.file_path_buf = String::new();
                Action::Continue
            },
            _ => {
                if key.modifiers.bits == CONTROL_BITS {
                } else {
                    match key.code {
                        KeyCode::Char(c) => push_char(&mut self.file_path_buf, c),
                        KeyCode::Backspace => {
                            pop_char(&mut self.file_path_buf);
                        },
                        _ => {},
                    }
                }
                Action::Continue
            },
        }
    }

    /// Ctrl-C: leave at once, saving an unfinished session that has
    /// keystrokes (see [`quit_view`]).
    fn quit_now(&self, now: u64) -> (act: Action)
        ensures
            act@ == quit_view(self@, now),
    {
        if self.document.is_some() && !self.is_finished() && self.total_count > 0 {
            Action::SaveAndQuit(
                SessionSummary {
                    correct: self.correct_count,
                    total: self.total_count,
                    elapsed_ms: self.elapsed_ms(now),
                    completed: false,
                    lesson: self.lesson_name.clone(),
                },
            )
        } else {
            Action::Quit
        }
    }

    /// Escape outside the file path prompt (see [`esc_step`]).
    fn handle_esc(&mut self, now: u64) -> (act: Action)
        requires
            old(self).wf(),
        ensures
            final(self).wf(),
            (final(self)@, act@) == esc_step(old(self)@, now),
    {
        if self.viewing_history {
            self.viewing_history = false;
            return Action::Continue;
        }
        if self.document.is_none() && self.error.is_none() {
            return Action::Quit;
        }
        let act = if !self.is_finished() {
            self.session(false, now)
        } else {
            Action::Continue
        };
        self.document = None;
        self.error = None;
        self.clear_session();
        self.last_error_char = None;
        act
    }

    /// A key on the history view (see [`history_step`]).
    fn handle_history_key(&mut self, code: KeyCode)
        requires
            old(self).wf(),
        ensures
            final(self).wf(),
            final(self)@ == history_step(old(self)@, code),
    {
        if code == KeyCode::Up || code == KeyCode::Char('k') {
            self.history_scroll = self.history_scroll.saturating_sub(1);
        } else if code == KeyCode::Down || code == KeyCode::Char('j') {
            if self.history_scroll < self.history_len && self.history_len - self.history_scroll > 1 {
                self.history_scroll += 1;
            }
        }
    }

    /// A key on the main menu (see [`menu_step`]).
    fn handle_menu_key(&mut self, code: KeyCode) -> (act: Action)
        requires
            old(self).wf(),
        ensures
            final(self).wf(),
            (final(self)@, act@) == menu_step(old(self)@, code),
    {
        let count = lesson_count();
        if code == KeyCode::Up || code == KeyCode::Char('k') {
            self.selected_lesson = self.selected_lesson.saturating_sub(1);
        } else if code == KeyCode::Down || code == KeyCode::Char('j') {
            if self.selected_lesson < count && count - self.selected_lesson > 1 {
                self.selected_lesson += 1;
            }
        } else if code == KeyCode::Enter {
            let lessons = lessons_for_layout(self.layout);
            if self.selected_lesson < lessons.len() {
                let lesson = lessons[self.selected_lesson];
                self.open_text(lesson.text, lesson.title.to_owned(), Some(self.selected_lesson));
            }
        } else if code == KeyCode::Char('h') {
            self.viewing_history = true;
            self.history_scroll = self.history_len.saturating_sub(1);
            return Action::LoadHistory;
        } else if code == KeyCode::Char('l') {
            self.layout = self.layout.cycle();
            return Action::SaveSettings;
        } else if code == KeyCode::Char('1') {
            if self.display.show_hints {
                self.display.show_fingers = !self.display.show_fingers;
                return Action::SaveSettings;
            }
        } else if code == KeyCode::Char('2') {
            self.display.show_hints = !self.display.show_hints;
            return Action::SaveSettings;
        } else if code == KeyCode::Char('3') {
            self.display.show_keyboard = !self.display.show_keyboard;
            return Action::SaveSettings;
        } else if code == KeyCode::Char('4') {
            self.display.theme = self.display.theme.toggled();
            return Action::SaveSettings;
        }
        Action::Continue
    }

    /// A character typed into the text (see [`typed_step`]).
    #[verifier::rlimit(60)]
    fn handle_typed_char(&mut self, typed: char, now: u64) -> (act: Action)
        requires
            old(self).wf(),
            old(self)@.document matches Some(d) && expected_of(d) is Some ==> old(self).total_count < u32::MAX,
            now <= u64::MAX - HIGHLIGHT_MS,
        ensures
            final(self).wf(),
            (final(self)@, act@) == typed_step(old(self)@, typed, now),
    {
        let expected = match &self.document {
            Some(d) => match d.expected_char() {
                Some(c) => c,
                None => {
                    return Action::Continue;
                },
            },
            None => {
                return Action::Continue;
            },
        };
        proof {
            let d = self.document.unwrap();
            d.lemma_wf();
            crate::document::lemma_advance_within_text(d@);
        }
        let ghost old_stats = self.key_stats@;
        let ghost old_total = self.total_count;
        if self.start_time.is_none() {
            self.start_time = Some(now);
        }
        self.total_count += 1;
        let hit = typed == expected;
        self.key_stats.record(expected, hit);
        proof {
            crate::stats::lemma_total_counted(old_stats, expected, hit);
        }
        assert forall|c: char| #[trigger] self.key_stats@.dom().contains(c)
            implies self.key_stats@[c].0 + self.key_stats@[c].1 <= self.total_count by {
            if c != expected {
                assert(old_stats.dom().contains(c));
            }
        }
        self.last_correct = hit;
        let mut act = Action::Continue;
        if hit {
            self.correct_count += 1;
            self.last_error_char = None;
            let mut finished_now = false;
            match &mut self.document {
                Some(doc) => {
                    doc.advance();
                    finished_now = doc.progress() == Progress::Finished;
                },
                None => {},
            }
            if finished_now {
                self.end_time = Some(now);
                match self.lesson_index {
                    Some(i) => {
                        if i + 1 < lesson_count() {
                            self.selected_lesson = i + 1;
                        } else {
                            self.selected_lesson = i;
                        }
                    },
                    None => {},
                }
                act = self.session(true, now);
            }
        } else {
            self.last_error_char = Some(typed);
        }
        self.highlight_until = Some(now + HIGHLIGHT_MS);
        let display_char = if is_whitespace(typed) {
            ' '
        } else {
            to_ascii_uppercase(typed)
        };
        self.highlighted_key = Some(KeyCode::Char(display_char));
        act
    }

    /// A key press (see [`key_step`]).
    fn handle_key(&mut self, key: KeyEvent, now: u64) -> (act: Action)
        requires
            old(self).wf(),
            counts_keystroke(old(self)@, key) ==> old(self).total_count < u32::MAX,
            now <= u64::MAX - HIGHLIGHT_MS,
        ensures
            final(self).wf(),
            (final(self)@, act@) == key_step(old(self)@, key, now),
    {
        if self.searching {
            return self.handle_search_key(key);
        }
        let control = key.modifiers.bits == CONTROL_BITS;
        if key.code == KeyCode::Char('c') && control {
            self.quit_now(now)
        } else if key.code == KeyCode::Char('f') && control {
            self.searching = true;
            self.file_path_buf = String::new();
            self.error = None;
            Action::Continue
        } else if key.code == KeyCode::Char('r') && control {
            if self.document.is_some() {
                self.restart();
            }
            Action::Continue
        } else if key.code == KeyCode::Esc && key.modifiers.bits == 0 {
            self.handle_esc(now)
        } else if self.viewing_history {
            self.handle_history_key(key.code);
            Action::Continue
        } else if self.document.is_none() && self.error.is_none() {
            self.handle_menu_key(key.code)
        } else if key.code == KeyCode::Char('r') && self.is_finished() {
            self.restart();
            Action::Continue
        } else {
            match key.code {
                KeyCode::Char(typed) => {
                    if self.last_error_char.is_none() {
                        self.handle_typed_char(typed, now)
                    } else {
                        Action::Continue
                    }
                },
                KeyCode::Backspace => {
                    self.last_error_char = None;
                    Action::Continue
                },
                _ => Action::Continue,
            }
        }
    }

    /// Whether the event would be counted as a keystroke of the text, so
    /// that the counter must have room for it (see [`room_to_count`]).
    pub fn counts_event(&self, event: &InputEvent) -> (b: bool)
        requires
            self.wf(),
        ensures
            b == (*event matches InputEvent::Press(key) && counts_keystroke(self@, key)),
    {
        match event {
            InputEvent::Tick => false,
            InputEvent::Press(key) => {
                let control = key.modifiers.bits == CONTROL_BITS;
                if self.searching || (control && (key.code == KeyCode::Char('c') || key.code == KeyCode::Char('f')
                    || key.code == KeyCode::Char('r'))) || (key.code == KeyCode::Esc && key.modifiers.bits == 0)
                    || self.viewing_history || (self.document.is_none() && self.error.is_none())
                    || (key.code == KeyCode::Char('r') && self.is_finished()) || self.last_error_char.is_some() {
                    return false;
                }
                match key.code {
                    KeyCode::Char(_) => {},
                    _ => {
                        return false;
                    },
                }
                match &self.document {
                    Some(d) => d.expected_char().is_some(),
                    None => false,
                }
            },
        }
    }

    /// Handles one input event at time `now` (milliseconds of a clock that
    /// does not go back) and returns the outside work it calls for (see
    /// [`event_step`]).
    pub fn handle_event(&mut self, event: InputEvent, now: u64) -> (act: Action)
        requires
            old(self).wf(),
            room_to_count(old(self)@, event),
            now <= u64::MAX - HIGHLIGHT_MS,
        ensures
            final(self).wf(),
            (final(self)@, act@) == event_step(old(self)@, event, now),
    {
        match event {
            InputEvent::Tick => {
                match self.highlight_until {
                    Some(until) => {
                        if now >= until {
                            self.highlighted_key = None;
                            self.highlight_until = None;
                        }
                    },
                    None => {},
                }
                Action::Continue
            },
            InputEvent::Press(key) => self.handle_key(key, now),
        }
    }
}

} // verus!
