use clavirio::settings::{DisplaySettings, KeyboardLayout, KeyboardSettings, Settings, Theme};

#[test]
fn default_layout_is_qwerty() {
    let s = Settings::default();
    assert_eq!(s.keyboard.layout, KeyboardLayout::Qwerty);
}

#[test]
fn cycle_layout() {
    assert_eq!(KeyboardLayout::Qwerty.cycle(), KeyboardLayout::Dvorak);
    assert_eq!(KeyboardLayout::Dvorak.cycle(), KeyboardLayout::Colemak);
    assert_eq!(KeyboardLayout::Colemak.cycle(), KeyboardLayout::Qwerty);
}

#[test]
fn display_names() {
    assert_eq!(KeyboardLayout::Qwerty.to_string(), "QWERTY");
    assert_eq!(KeyboardLayout::Dvorak.to_string(), "Dvorak");
    assert_eq!(KeyboardLayout::Colemak.to_string(), "Colemak");
}

#[test]
fn cycle_returns_after_three_steps() {
    for l in [KeyboardLayout::Qwerty, KeyboardLayout::Dvorak, KeyboardLayout::Colemak] {
        assert_eq!(l.cycle().cycle().cycle(), l);
        assert_ne!(l.cycle(), l);
    }
}

#[test]
fn defaults_show_everything() {
    let d = DisplaySettings::default();
    assert!(d.show_keyboard && d.show_hints && d.show_fingers);
    assert_eq!(KeyboardSettings::default().layout, KeyboardLayout::Qwerty);
    assert_eq!(KeyboardLayout::default(), KeyboardLayout::Qwerty);
    assert!(clavirio::settings::default_true());
}

#[test]
fn theme_toggles_between_dark_and_light() {
    assert_eq!(Theme::default(), Theme::Dark);
    assert_eq!(DisplaySettings::default().theme, Theme::Dark);
    assert_eq!(Settings::default().display.theme, Theme::Dark);
    assert_eq!(Theme::Dark.toggled(), Theme::Light);
    assert_eq!(Theme::Light.toggled(), Theme::Dark);
}
