use dsh_shell::settings::settings_theme;
use dsh_shell::theme::{
    apply_window_theme, name_of_theme, recognise_theme, startup_theme, tauri_theme, Icon, Theme,
    ThemeSync,
};

#[test]
fn preference_is_read_from_the_settings() {
    assert_eq!(settings_theme(Some("/home/u"), Some("ui-theme:\n  preference: dark\n")), Some("dark"));
    assert_eq!(settings_theme(Some("/home/u"), Some("a: 1\nui-theme:\n  preference: \"light\"\nb: 2")), Some("light"));
    assert_eq!(settings_theme(Some("/home/u"), Some("ui-theme:\n  preference:'dark'")), Some("dark"));
    assert_eq!(settings_theme(Some("/home/u"), Some("ui-theme: {preference:\u{3000}light }")), Some("light"));
}

#[test]
fn settings_without_a_known_preference_give_none() {
    assert_eq!(settings_theme(Some("/home/u"), None), None);
    assert_eq!(settings_theme(None, Some("ui-theme:\n  preference: dark\n")), None);
    assert_eq!(settings_theme(Some(""), Some("ui-theme:\n  preference: dark\n")), None);
    assert_eq!(settings_theme(Some("/home/u"), Some("")), None);
    assert_eq!(settings_theme(Some("/home/u"), Some("ui-theme:")), None);
    assert_eq!(settings_theme(Some("/home/u"), Some("preference: dark")), None);
    assert_eq!(settings_theme(Some("/home/u"), Some("ui-theme:\n  preference:   ")), None);
    assert_eq!(settings_theme(Some("/home/u"), Some("ui-theme:\n  preference: system")), None);
    assert_eq!(settings_theme(Some("/home/u"), Some("ui-theme:\n  preference: Dark")), None);
}

#[test]
fn only_a_short_section_is_looked_at() {
    let near = format!("ui-theme:{}preference: dark", " ".repeat(95));
    assert_eq!(near.len(), 120);
    assert_eq!(settings_theme(Some("/home/u"), Some(&near)), Some("dark"));
    let far = format!("ui-theme:{}preference: dark", " ".repeat(96));
    assert_eq!(settings_theme(Some("/home/u"), Some(&far)), None);
    let mixed = format!("ui-theme:{}preference: light", "主".repeat(31));
    assert_eq!(settings_theme(Some("/home/u"), Some(&mixed)), Some("light"));
}

#[test]
fn section_is_cut_before_a_character_that_does_not_fit() {
    let text = format!("ui-theme:{}中", "x".repeat(110));
    assert!(!text.is_char_boundary(120));
    assert_eq!(settings_theme(Some("/h"), Some(&text)), None);
    let text = format!("ui-theme: preference: dark {}", "中".repeat(60));
    assert_eq!(settings_theme(Some("/h"), Some(&text)), Some("dark"));
    let text = format!("ui-theme:x{}preference: dark中", "y".repeat(93));
    assert!(!text.is_char_boundary(120));
    assert_eq!(settings_theme(Some("/h"), Some(&text)), Some("dark"));
}

#[test]
fn start_prefers_the_setting_to_the_system() {
    assert_eq!(startup_theme(Some("light"), Some(Theme::Dark)), "light");
    assert_eq!(startup_theme(None, Some(Theme::Light)), "light");
    assert_eq!(startup_theme(None, Some(Theme::Dark)), "dark");
    assert_eq!(startup_theme(None, None), "dark");
}

#[test]
fn names_and_looks() {
    assert_eq!(tauri_theme("light"), Theme::Light);
    assert_eq!(tauri_theme("Light"), Theme::Dark);
    assert_eq!(tauri_theme("dark"), Theme::Dark);
    assert_eq!(recognise_theme("light"), Some(Theme::Light));
    assert_eq!(recognise_theme("dark"), Some(Theme::Dark));
    assert_eq!(recognise_theme("other"), None);
    assert_eq!(name_of_theme(Theme::Light), "light");
    assert_eq!(name_of_theme(Theme::Dark), "dark");
    let light = apply_window_theme("light");
    assert_eq!((light.red, light.green, light.blue, light.alpha), (255, 255, 255, 255));
    assert_eq!((light.theme, light.icon), (Theme::Light, Icon::ForLight));
    let dark = apply_window_theme("dark");
    assert_eq!((dark.red, dark.green, dark.blue, dark.alpha), (21, 21, 23, 255));
    assert_eq!((dark.theme, dark.icon), (Theme::Dark, Icon::ForDark));
}

#[test]
fn scheme_is_applied_at_the_second_sight() {
    let mut sync = ThemeSync::default();
    assert_eq!(sync.observe("\"dark\""), None);
    assert_eq!(sync.observe("\"dark\""), Some(Theme::Dark));
    assert_eq!(sync.observe("\"dark\""), None);
    assert_eq!(sync.current, Some(Theme::Dark));
    assert_eq!(sync.observe("\"light\""), None);
    assert_eq!(sync.observe("\"light\""), Some(Theme::Light));
    assert_eq!(sync.current, Some(Theme::Light));
}

#[test]
fn glimpse_is_not_applied() {
    let mut sync = ThemeSync { current: Some(Theme::Dark), pending: None };
    assert_eq!(sync.observe_name("light"), None);
    assert_eq!(sync.observe_name("dark"), None);
    assert_eq!(sync.observe_name("light"), None);
    assert_eq!(sync, ThemeSync { current: Some(Theme::Dark), pending: Some(Theme::Light) });
}

#[test]
fn page_that_is_not_ready_clears_what_was_seen() {
    for value in ["\"\"", "null", "\"auto\"", "not json", "light", "[\"light\"]", "42"] {
        let mut sync = ThemeSync { current: Some(Theme::Dark), pending: Some(Theme::Light) };
        assert_eq!(sync.observe(value), None);
        assert_eq!(sync, ThemeSync { current: Some(Theme::Dark), pending: None });
        assert_eq!(sync.observe("  \"l\\u0069ght\"  "), None);
        assert_eq!(sync.observe("\"light\""), Some(Theme::Light));
    }
}

#[test]
fn sights_have_to_be_at_consecutive_polls() {
    let mut sync = ThemeSync::default();
    assert_eq!(sync.observe("\"dark\""), None);
    assert_eq!(sync.observe("\"\""), None);
    assert_eq!(sync.observe("\"dark\""), None);
    assert_eq!(sync.current, None);
}
