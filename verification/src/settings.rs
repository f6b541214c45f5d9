//! User preferences: keyboard layout, display toggles and theme.
use vstd::prelude::*;

verus! {

/// A keyboard layout that lessons and the virtual keyboard follow.
#[derive(Debug, Clone, Copy, PartialEq, Eq, Structural)]
pub enum KeyboardLayout {
    Qwerty,
    Dvorak,
    Colemak,
}

/// The layout that follows `l` when cycling: QWERTY, Dvorak, Colemak, QWERTY, ...
pub open spec fn next_layout(l: KeyboardLayout) -> KeyboardLayout {
    match l {
        KeyboardLayout::Qwerty => KeyboardLayout::Dvorak,
        KeyboardLayout::Dvorak => KeyboardLayout::Colemak,
        KeyboardLayout::Colemak => KeyboardLayout::Qwerty,
    }
}

/// The name under which a layout is shown.
pub open spec fn layout_name(l: KeyboardLayout) -> Seq<char> {
    match l {
        KeyboardLayout::Qwerty => "QWERTY"@,
        KeyboardLayout::Dvorak => "Dvorak"@,
        KeyboardLayout::Colemak => "Colemak"@,
    }
}

impl KeyboardLayout {
    /// The next layout in the cycle (see [`next_layout`]).
    pub fn cycle(self) -> (next: Self)
        ensures
            next == next_layout(self),
    {
        match self {
            KeyboardLayout::Qwerty => KeyboardLayout::Dvorak,
            KeyboardLayout::Dvorak => KeyboardLayout::Colemak,
            KeyboardLayout::Colemak => KeyboardLayout::Qwerty,
        }
    }

    /// The name under which the layout is shown (see [`layout_name`]).
    pub fn to_string(&self) -> (name: String)
        ensures
            name@ == layout_name(*self),
    {
        match self {
            KeyboardLayout::Qwerty => "QWERTY".to_owned(),
            KeyboardLayout::Dvorak => "Dvorak".to_owned(),
            KeyboardLayout::Colemak => "Colemak".to_owned(),
        }
    }
}

/// Cycling goes through all three layouts and comes back after three steps.
pub proof fn lemma_cycle_period(l: KeyboardLayout)
    ensures
        next_layout(next_layout(next_layout(l))) == l,
        next_layout(l) != l,
        next_layout(next_layout(l)) != l,
        next_layout(next_layout(l)) != next_layout(l),
{
}

/// Layouts are shown under different names.
pub proof fn lemma_layout_names_distinct(a: KeyboardLayout, b: KeyboardLayout)
    requires
        a != b,
    ensures
        layout_name(a) != layout_name(b),
{
    reveal_strlit("QWERTY");
    reveal_strlit("Dvorak");
    reveal_strlit("Colemak");
    if layout_name(a) == layout_name(b) {
        assert(layout_name(a)[0] == layout_name(b)[0]);
        assert(layout_name(a).len() == layout_name(b).len());
    }
}

impl Default for KeyboardLayout {
    /// QWERTY.
    fn default() -> (l: Self)
        ensures
            l == KeyboardLayout::Qwerty,
    {
        KeyboardLayout::Qwerty
    }
}

/// Settings of the keyboard.
#[derive(Debug, Clone, Copy, PartialEq, Eq, Structural)]
pub struct KeyboardSettings {
    pub layout: KeyboardLayout,
}

impl Default for KeyboardSettings {
    /// The QWERTY layout.
    fn default() -> (s: Self)
        ensures
            s.layout == KeyboardLayout::Qwerty,
    {
        KeyboardSettings { layout: KeyboardLayout::Qwerty }
    }
}

/// The value a display toggle has when it is not set.
pub fn default_true() -> (b: bool)
    ensures
        b,
{
    true
}

/// The colours of the screen.
#[derive(Debug, Clone, Copy, PartialEq, Eq, Structural)]
pub enum Theme {
    Dark,
    Light,
}

/// The theme that a toggle switches to.
pub open spec fn other_theme(t: Theme) -> Theme {
    match t {
        Theme::Dark => Theme::Light,
        Theme::Light => Theme::Dark,
    }
}

impl Theme {
    /// Dark becomes light and light dark (see [`other_theme`]).
    pub fn toggled(self) -> (t: Self)
        ensures
            t == other_theme(self),
    {
        match self {
            Theme::Dark => Theme::Light,
            Theme::Light => Theme::Dark,
        }
    }
}

impl Default for Theme {
    /// Dark.
    fn default() -> (t: Self)
        ensures
            t == Theme::Dark,
    {
        Theme::Dark
    }
}

/// What the screen shows, and in which colours.
#[derive(Debug, Clone, Copy, PartialEq, Eq, Structural)]
pub struct DisplaySettings {
    pub show_keyboard: bool,
    pub show_hints: bool,
    pub show_fingers: bool,
    pub theme: Theme,
}

/// Everything shown, in the dark theme.
pub open spec fn default_display() -> DisplaySettings {
    DisplaySettings { show_keyboard: true, show_hints: true, show_fingers: true, theme: Theme::Dark }
}

impl Default for DisplaySettings {
    /// Everything shown, in the dark theme (see [`default_display`]).
    fn default() -> (s: Self)
        ensures
            s == default_display(),
    {
        DisplaySettings {
            show_keyboard: default_true(),
            show_hints: default_true(),
            show_fingers: default_true(),
            theme: Theme::Dark,
        }
    }
}

/// All preferences.
#[derive(Debug, Clone, Copy, PartialEq, Eq, Structural)]
pub struct Settings {
    pub keyboard: KeyboardSettings,
    pub display: DisplaySettings,
}

impl Default for Settings {
    /// QWERTY, with everything shown in the dark theme.
    fn default() -> (s: Self)
        ensures
            s.keyboard.layout == KeyboardLayout::Qwerty,
            s.display == default_display(),
    {
        Settings { keyboard: KeyboardSettings::default(), display: DisplaySettings::default() }
    }
}

} // verus!
