use sptf_tui::config::{Paths, Settings, SettingsLayer};

fn no_layer() -> SettingsLayer {
    SettingsLayer {
        theme: None,
        frame_rate: None,
        show_album_art: None,
        preferred: None,
        position_poll_ms: None,
        level: None,
        keys: Vec::new(),
    }
}

fn home_paths() -> Paths {
    Paths::resolve(
        "/home/u/.config/sptf",
        "/home/u/.cache/sptf",
        Some("/home/u/.local/state/sptf"),
        "/home/u/.local/share/sptf",
    )
}

fn find_keys<'a>(s: &'a Settings, action: &str) -> Option<&'a Vec<String>> {
    s.keys.0.iter().find(|(name, _)| name == action).map(|(_, keys)| keys)
}

#[test]
fn defaults_are_sane() {
    let settings = Settings::default();
    // The built-in theme is `spotify-dark`: the README, the changelog and
    // `defaults_load_when_no_file_passed` all name it, and no theme called
    // `default` exists.
    assert_eq!(settings.ui.theme, "spotify-dark");
    assert_eq!(settings.ui.frame_rate, 30);
    assert!(settings.ui.show_album_art);
    assert_eq!(settings.player.preferred.as_deref(), Some("spotify"));
    assert_eq!(settings.player.position_poll_ms, 500);
    assert_eq!(settings.logging.level, "warn");
}

#[test]
fn load_uses_defaults_when_no_file_is_present() {
    let s = Settings::load(home_paths(), Vec::new());
    assert_eq!(s.ui.frame_rate, 30);
}

#[test]
fn load_reads_explicit_file() {
    // [ui]
    // frame_rate = 12
    // show_album_art = false
    let layer = SettingsLayer { frame_rate: Some(12), show_album_art: Some(false), ..no_layer() };
    let s = Settings::load(home_paths(), vec![layer]);
    assert_eq!(s.ui.frame_rate, 12);
    assert!(!s.ui.show_album_art);
}

#[test]
fn defaults_load_when_no_file_passed() {
    let s = Settings::load(home_paths(), Vec::new());
    assert_eq!(s.ui.theme, "spotify-dark");
    assert_eq!(s.ui.frame_rate, 30);
    assert_eq!(s.player.position_poll_ms, 500);
}

#[test]
fn explicit_file_overrides_defaults() {
    let layer = SettingsLayer {
        theme: Some("gruvbox-dark".to_string()),
        frame_rate: Some(12),
        show_album_art: Some(false),
        preferred: Some("mpv".to_string()),
        position_poll_ms: Some(1000),
        level: Some("info".to_string()),
        keys: Vec::new(),
    };
    let s = Settings::load(home_paths(), vec![layer]);
    assert_eq!(s.ui.theme, "gruvbox-dark");
    assert_eq!(s.ui.frame_rate, 12);
    assert!(!s.ui.show_album_art);
    assert_eq!(s.player.preferred.as_deref(), Some("mpv"));
    assert_eq!(s.player.position_poll_ms, 1000);
    assert_eq!(s.logging.level, "info");
}

#[test]
fn keymap_section_parses_into_settings() {
    let layer = SettingsLayer {
        keys: vec![
            ("quit".to_string(), vec!["q".to_string(), "esc".to_string()]),
            ("next".to_string(), vec!["f5".to_string()]),
        ],
        ..no_layer()
    };
    let s = Settings::load(home_paths(), vec![layer]);
    assert_eq!(find_keys(&s, "quit").map(Vec::len), Some(2));
    assert_eq!(find_keys(&s, "next").map(Vec::len), Some(1));
}

#[test]
fn settings_load_with_defaults() {
    let settings = Settings::load(home_paths(), Vec::new());
    assert!(!settings.paths.config_dir.is_empty());
    assert!(settings.ui.frame_rate >= 1);
}

#[test]
fn environment_layer_overrides_file_layer() {
    let file = SettingsLayer {
        frame_rate: Some(12),
        theme: Some("gruvbox-dark".to_string()),
        ..no_layer()
    };
    let env = SettingsLayer { frame_rate: Some(60), ..no_layer() };
    let s = Settings::load(home_paths(), vec![file, env]);
    assert_eq!(s.ui.frame_rate, 60);
    assert_eq!(s.ui.theme, "gruvbox-dark");
    assert_eq!(s.logging.level, "warn");
}

#[test]
fn later_keys_entry_replaces_earlier_for_same_action() {
    let file = SettingsLayer {
        keys: vec![("next".to_string(), vec!["f5".to_string()])],
        ..no_layer()
    };
    let env = SettingsLayer {
        keys: vec![("next".to_string(), vec!["f6".to_string(), "f7".to_string()])],
        ..no_layer()
    };
    let s = Settings::load(home_paths(), vec![file, env]);
    assert_eq!(s.keys.0.len(), 1);
    assert_eq!(find_keys(&s, "next"), Some(&vec!["f6".to_string(), "f7".to_string()]));
}

#[test]
fn paths_resolve_joins_config_and_log_locations() {
    let p = home_paths();
    assert_eq!(p.config_file, "/home/u/.config/sptf/config.toml");
    assert_eq!(p.config_dir, "/home/u/.config/sptf");
    assert_eq!(p.cache_dir, "/home/u/.cache/sptf");
    assert_eq!(p.log_dir, "/home/u/.local/state/sptf/logs");
    let q = Paths::resolve("/c/", "/k", None, "/d");
    assert_eq!(q.config_file, "/c/config.toml");
    assert_eq!(q.log_dir, "/d/logs");
}

#[test]
fn file_to_load_prefers_explicit_path() {
    assert_eq!(
        Settings::file_to_load(Some("/tmp/x.toml"), "/c/config.toml", true),
        Some("/tmp/x.toml".to_string())
    );
    assert_eq!(
        Settings::file_to_load(None, "/c/config.toml", true),
        Some("/c/config.toml".to_string())
    );
    assert_eq!(Settings::file_to_load(None, "/c/config.toml", false), None);
    assert_eq!(Settings::file_to_load(Some(""), "/c/config.toml", false), None);
}
