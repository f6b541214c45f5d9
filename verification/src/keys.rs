//! Key presses as the library reads them.
use vstd::prelude::*;

verus! {

/// A modifier key on its own.
#[derive(Debug, Clone, Copy, PartialEq, Eq, Hash, Structural)]
pub enum ModifierKeyCode {
    LeftShift,
    LeftControl,
    LeftAlt,
    LeftSuper,
    LeftHyper,
    LeftMeta,
    RightShift,
    RightControl,
    RightAlt,
    RightSuper,
    RightHyper,
    RightMeta,
    IsoLevel3Shift,
    IsoLevel5Shift,
}

/// The key that was pressed.
#[derive(Debug, Clone, Copy, PartialEq, Eq, Hash, Structural)]
pub enum KeyCode {
    Char(char),
    Enter,
    Esc,
    Backspace,
    Tab,
    Up,
    Down,
    Left,
    Right,
    Modifier(ModifierKeyCode),
    /// Any key the library does not tell apart.
    Other,
}

/// The set of modifiers held with a key, one bit each: Shift 1, Control 2,
/// Alt 4, Super 8, Hyper 16, Meta 32.
#[derive(Debug, Clone, Copy, PartialEq, Eq, Hash, Structural)]
pub struct KeyModifiers {
    pub bits: u8,
}

impl KeyModifiers {
    /// No modifier held.
    pub fn none() -> (m: Self)
        ensures
            m.bits == 0,
    {
        KeyModifiers { bits: 0 }
    }

    /// Control alone.
    pub fn control() -> (m: Self)
        ensures
            m.bits == 2,
    {
        KeyModifiers { bits: 2 }
    }
}

/// A key press.
#[derive(Debug, Clone, Copy, PartialEq, Eq, Hash, Structural)]
pub struct KeyEvent {
    pub code: KeyCode,
    pub modifiers: KeyModifiers,
}

impl KeyEvent {
    /// A press of `code` with `modifiers` held.
    pub fn new(code: KeyCode, modifiers: KeyModifiers) -> (e: Self)
        ensures
            e.code == code,
            e.modifiers == modifiers,
    {
        KeyEvent { code, modifiers }
    }
}

/// What the input loop hands to the application.
#[derive(Debug, Clone, Copy, PartialEq, Eq, Structural)]
pub enum InputEvent {
    Press(KeyEvent),
    /// Time passed without a key press.
    Tick,
}

} // verus!
