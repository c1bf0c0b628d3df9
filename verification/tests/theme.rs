use mailkeep::theme::{apply_stored_theme, theme_from_setting, theme_script, theme_store_script, ThemeMode};

#[test]
fn cycle_rotates_system_light_dark_system() {
    assert_eq!(ThemeMode::System.cycle(), ThemeMode::Light);
    assert_eq!(ThemeMode::Light.cycle(), ThemeMode::Dark);
    assert_eq!(ThemeMode::Dark.cycle(), ThemeMode::System);
}

#[test]
fn as_str_from_str_round_trip() {
    for mode in [ThemeMode::System, ThemeMode::Light, ThemeMode::Dark] {
        assert_eq!(ThemeMode::from_str(mode.as_str()), mode);
    }
}

#[test]
fn from_str_unknown_defaults_to_system() {
    assert_eq!(ThemeMode::from_str("bogus"), ThemeMode::System);
    assert_eq!(ThemeMode::from_str(""), ThemeMode::System);
}

#[test]
fn default_mode_follows_the_system() {
    assert_eq!(ThemeMode::default(), ThemeMode::System);
}

#[test]
fn stored_choice_applies_only_while_following_system() {
    assert_eq!(apply_stored_theme(ThemeMode::System, "dark"), ThemeMode::Dark);
    assert_eq!(apply_stored_theme(ThemeMode::Light, "dark"), ThemeMode::Light);
    assert_eq!(apply_stored_theme(ThemeMode::System, ""), ThemeMode::System);
    assert_eq!(theme_from_setting(Some("light")), Some(ThemeMode::Light));
    assert_eq!(theme_from_setting(None), None);
}

#[test]
fn scripts_name_the_mode() {
    assert_eq!(theme_store_script(ThemeMode::Dark), "localStorage.setItem('mk_theme',\"dark\")");
    let s = theme_script(ThemeMode::System);
    assert!(s.starts_with("(function(){var m=\"system\";"));
    assert!(s.ends_with("document.documentElement.classList.toggle('dark',dark);})()"));
}
