//! Settings: colours, themes and stored choices.

use todo_tui::config::{
    apply_theme_overrides, note_display_of, parse_hex_color, theme_from_config, with_note_display,
    with_sidebar_width, with_theme_name, Config, ThemeConfig,
};
use todo_tui::defs::NoteDisplay;
use todo_tui::theme::{Rgb, Theme};

#[test]
fn hex_colours_read_in_short_and_long_form() {
    assert_eq!(parse_hex_color("#fff"), Some(Rgb { r: 255, g: 255, b: 255 }));
    assert_eq!(parse_hex_color("1e1e2e"), Some(Rgb { r: 0x1e, g: 0x1e, b: 0x2e }));
    assert_eq!(parse_hex_color("##a0b"), Some(Rgb { r: 0xaa, g: 0x00, b: 0xbb }));
    assert_eq!(parse_hex_color("#12"), None);
    assert_eq!(parse_hex_color("#gg0000"), None);
}

#[test]
fn overrides_replace_only_the_colours_that_read() {
    let mut theme = Theme::one_dark();
    let base = theme;
    let mut tc = ThemeConfig::default();
    tc.accent = Some("#ff0000".to_string());
    tc.error = Some("nonsense".to_string());
    apply_theme_overrides(&mut theme, &tc);
    assert_eq!(theme.accent, Rgb { r: 255, g: 0, b: 0 });
    assert_eq!(theme.error, base.error);
    assert_eq!(theme.bg_primary, base.bg_primary);
}

#[test]
fn a_named_preset_is_loaded_with_its_overrides() {
    let mut tc = ThemeConfig::default();
    tc.name = Some("dracula".to_string());
    tc.bg_primary = Some("#000".to_string());
    let cfg = Config { theme: Some(tc), sidebar_width: None, notes_inline: None };
    let theme = theme_from_config(&Some(cfg));
    assert_eq!(theme.name, "dracula");
    assert_eq!(theme.bg_primary, Rgb { r: 0, g: 0, b: 0 });
    assert_eq!(theme_from_config(&None).name, "one-dark");
}

#[test]
fn saved_choices_keep_the_other_settings() {
    let cfg = with_sidebar_width(None, 30);
    let cfg = with_theme_name(Some(cfg), "nord");
    let cfg = with_note_display(Some(cfg), NoteDisplay::Latest);
    assert_eq!(cfg.sidebar_width, Some(30));
    assert_eq!(cfg.theme.as_ref().and_then(|t| t.name.clone()), Some("nord".to_string()));
    assert_eq!(cfg.notes_inline.as_deref(), Some("latest"));
    assert_eq!(note_display_of(&cfg), NoteDisplay::Latest);
    let odd = Config { theme: None, sidebar_width: None, notes_inline: Some("everything".to_string()) };
    assert_eq!(note_display_of(&odd), NoteDisplay::All);
}

#[test]
fn configured_theme_is_the_named_preset_with_its_overrides() {
    let t = todo_tui::theme::Theme::by_name("dracula").unwrap();
    assert_eq!(t.accent, todo_tui::theme::Theme::dracula().accent);
    assert_eq!(t.bg_primary, todo_tui::theme::Theme::dracula().bg_primary);
    assert!(todo_tui::theme::Theme::by_name("nope").is_none());
}
