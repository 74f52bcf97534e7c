use sptf_tui::config::KeymapSettings;
use sptf_tui::input::keymap::parse_action;
use sptf_tui::input::{parse_key, Action, KeyCode, KeyCombo, KeyModifiers, Keymap};

fn parse_eq(raw: &str, expected: KeyCombo) {
    assert_eq!(parse_key(raw), Some(expected), "parsing {raw:?}");
}

fn key(code: KeyCode) -> KeyCombo {
    KeyCombo::new(code, KeyModifiers::none())
}

#[test]
fn parses_single_chars() {
    parse_eq("q", KeyCombo::new(KeyCode::Char('q'), KeyModifiers::none()));
    parse_eq("+", KeyCombo::new(KeyCode::Char('+'), KeyModifiers::none()));
    parse_eq("<", KeyCombo::new(KeyCode::Char('<'), KeyModifiers::none()));
}

#[test]
fn parses_named_keys() {
    parse_eq("esc", KeyCombo::new(KeyCode::Esc, KeyModifiers::none()));
    parse_eq("escape", KeyCombo::new(KeyCode::Esc, KeyModifiers::none()));
    parse_eq("space", KeyCombo::new(KeyCode::Char(' '), KeyModifiers::none()));
    parse_eq("enter", KeyCombo::new(KeyCode::Enter, KeyModifiers::none()));
    parse_eq("right", KeyCombo::new(KeyCode::Right, KeyModifiers::none()));
}

#[test]
fn parses_function_keys() {
    parse_eq("f1", KeyCombo::new(KeyCode::F(1), KeyModifiers::none()));
    parse_eq("f12", KeyCombo::new(KeyCode::F(12), KeyModifiers::none()));
    assert!(parse_key("f99").is_none());
    assert!(parse_key("f0").is_none());
}

#[test]
fn parses_modifiers() {
    parse_eq("ctrl-c", KeyCombo::new(KeyCode::Char('c'), KeyModifiers::control()));
    parse_eq(
        "ctrl-shift-x",
        KeyCombo::new(KeyCode::Char('x'), KeyModifiers::control().union(KeyModifiers::shift())),
    );
    parse_eq("alt-tab", KeyCombo::new(KeyCode::Tab, KeyModifiers::alt()));
}

#[test]
fn is_case_insensitive() {
    parse_eq("CTRL-C", KeyCombo::new(KeyCode::Char('c'), KeyModifiers::control()));
    parse_eq("Esc", KeyCombo::new(KeyCode::Esc, KeyModifiers::none()));
}

#[test]
fn rejects_unknown_modifier() {
    assert!(parse_key("hyper-c").is_none());
}

#[test]
fn rejects_empty_and_garbage() {
    assert!(parse_key("").is_none());
    assert!(parse_key("   ").is_none());
    assert!(parse_key("nope").is_none());
    assert!(parse_key("ctrl-").is_none());
}

#[test]
fn parses_aliases_and_surrounding_whitespace() {
    parse_eq("  control-meta-Q  ", KeyCombo::new(
        KeyCode::Char('q'),
        KeyModifiers::control().union(KeyModifiers::alt()),
    ));
    parse_eq("return", KeyCombo::new(KeyCode::Enter, KeyModifiers::none()));
    parse_eq("pagedown", KeyCombo::new(KeyCode::PageDown, KeyModifiers::none()));
    parse_eq("F12", KeyCombo::new(KeyCode::F(12), KeyModifiers::none()));
    assert!(parse_key("f13").is_none());
    assert!(parse_key("f24").is_none());
    assert!(parse_key("ctrl-ab").is_none());
}

#[test]
fn q_and_esc_quit() {
    let km = Keymap::defaults();
    assert_eq!(km.lookup(key(KeyCode::Char('q'))), Some(Action::Quit));
    assert_eq!(km.lookup(key(KeyCode::Esc)), Some(Action::Quit));
}

#[test]
fn ctrl_c_quits() {
    let km = Keymap::defaults();
    let ev = KeyCombo::new(KeyCode::Char('c'), KeyModifiers::control());
    assert_eq!(km.lookup(ev), Some(Action::Quit));
}

#[test]
fn space_toggles_playback() {
    let km = Keymap::defaults();
    assert_eq!(km.lookup(key(KeyCode::Char(' '))), Some(Action::TogglePlayPause));
}

#[test]
fn unknown_keys_are_ignored() {
    let km = Keymap::defaults();
    assert!(km.lookup(key(KeyCode::F(12))).is_none());
}

#[test]
fn user_override_extends_defaults() {
    let settings = KeymapSettings(vec![("next".to_string(), vec!["f5".to_string()])]);
    let km = Keymap::from_settings(&settings);
    assert_eq!(km.lookup(key(KeyCode::F(5))), Some(Action::Next));
    assert_eq!(km.lookup(key(KeyCode::Char('q'))), Some(Action::Quit));
    assert_eq!(km.lookup(key(KeyCode::Char('n'))), Some(Action::Next));
}

#[test]
fn unknown_actions_and_keys_are_logged_and_skipped() {
    let settings = KeymapSettings(vec![
        ("nuke".to_string(), vec!["k".to_string()]),
        ("quit".to_string(), vec!["nope-not-a-key".to_string()]),
    ]);
    let km = Keymap::from_settings(&settings);
    assert!(km.lookup(key(KeyCode::Char('k'))).is_none());
    assert_eq!(km.lookup(key(KeyCode::Char('q'))), Some(Action::Quit));
}

#[test]
fn ctrl_c_cannot_be_rebound() {
    let settings = KeymapSettings(vec![("next".to_string(), vec!["ctrl-c".to_string()])]);
    let km = Keymap::from_settings(&settings);
    let ev = KeyCombo::new(KeyCode::Char('c'), KeyModifiers::control());
    assert_eq!(km.lookup(ev), Some(Action::Quit));
}

#[test]
fn later_user_binding_wins() {
    let settings = KeymapSettings(vec![
        ("next".to_string(), vec!["x".to_string()]),
        ("prev".to_string(), vec!["x".to_string()]),
        ("vol_up".to_string(), vec!["q".to_string()]),
    ]);
    let km = Keymap::from_settings(&settings);
    assert_eq!(km.lookup(key(KeyCode::Char('x'))), Some(Action::Previous));
    assert_eq!(km.lookup(key(KeyCode::Char('q'))), Some(Action::VolumeUp));
    assert_eq!(km.lookup(key(KeyCode::Esc)), Some(Action::Quit));
}

#[test]
fn default_bindings_cover_every_action() {
    let km = Keymap::new();
    assert_eq!(km.lookup(key(KeyCode::Char('p'))), Some(Action::TogglePlayPause));
    assert_eq!(km.lookup(key(KeyCode::Char('>'))), Some(Action::Next));
    assert_eq!(km.lookup(key(KeyCode::Char('<'))), Some(Action::Previous));
    assert_eq!(km.lookup(key(KeyCode::Char('='))), Some(Action::VolumeUp));
    assert_eq!(km.lookup(key(KeyCode::Char('_'))), Some(Action::VolumeDown));
    assert_eq!(km.lookup(key(KeyCode::Right)), Some(Action::SeekForward));
    assert_eq!(km.lookup(key(KeyCode::Char('h'))), Some(Action::SeekBackward));
    assert_eq!(km.lookup(key(KeyCode::Char('r'))), Some(Action::Redraw));
    assert_eq!(Keymap::default().lookup(key(KeyCode::Char('b'))), Some(Action::Previous));
}

#[test]
fn action_names_and_aliases() {
    assert_eq!(parse_action("quit"), Some(Action::Quit));
    assert_eq!(parse_action("play_pause"), Some(Action::TogglePlayPause));
    assert_eq!(parse_action("toggle_play_pause"), Some(Action::TogglePlayPause));
    assert_eq!(parse_action("prev"), Some(Action::Previous));
    assert_eq!(parse_action("vol_down"), Some(Action::VolumeDown));
    assert_eq!(parse_action("seek_backward"), Some(Action::SeekBackward));
    assert_eq!(parse_action("refresh"), Some(Action::Redraw));
    assert_eq!(parse_action("Quit"), None);
    assert_eq!(parse_action("nuke"), None);
}

#[test]
fn dash_and_f_are_keys_themselves() {
    parse_eq("-", KeyCombo::new(KeyCode::Char('-'), KeyModifiers::none()));
    parse_eq("_", KeyCombo::new(KeyCode::Char('_'), KeyModifiers::none()));
    parse_eq("ctrl--", KeyCombo::new(KeyCode::Char('-'), KeyModifiers::control()));
    parse_eq("ctrl-alt--", KeyCombo::new(
        KeyCode::Char('-'),
        KeyModifiers::control().union(KeyModifiers::alt()),
    ));
    parse_eq("f", KeyCombo::new(KeyCode::Char('f'), KeyModifiers::none()));
    parse_eq("F", KeyCombo::new(KeyCode::Char('f'), KeyModifiers::none()));
    parse_eq("ctrl-f", KeyCombo::new(KeyCode::Char('f'), KeyModifiers::control()));
    assert!(parse_key("--").is_none());
    assert!(parse_key("hyper--").is_none());
    assert!(parse_key("fx").is_none());
}

#[test]
fn readme_volume_down_keys_bind() {
    let settings = KeymapSettings(vec![(
        "volume_down".to_string(),
        vec!["-".to_string(), "_".to_string()],
    )]);
    let km = Keymap::from_settings(&settings);
    assert_eq!(km.lookup(key(KeyCode::Char('-'))), Some(Action::VolumeDown));
    assert_eq!(km.lookup(key(KeyCode::Char('_'))), Some(Action::VolumeDown));
}

#[test]
fn case_padding_and_modifier_order_do_not_matter() {
    assert_eq!(parse_key("  Ctrl-Shift-X "), parse_key("ctrl-shift-x"));
    assert_eq!(parse_key("shift-ctrl-x"), parse_key("ctrl-shift-x"));
    assert_eq!(parse_key("alt-alt-tab"), parse_key("alt-tab"));
    assert_eq!(parse_key("META-TAB"), parse_key("alt-tab"));
}

#[test]
fn user_bindings_extend_defaults_as_a_whole() {
    let settings = KeymapSettings(vec![
        ("next".to_string(), vec!["f5".to_string(), "x".to_string()]),
        ("vol_up".to_string(), vec!["x".to_string()]),
        ("next".to_string(), vec!["x".to_string()]),
    ]);
    let km = Keymap::from_settings(&settings);
    assert_eq!(km.lookup(key(KeyCode::F(5))), Some(Action::Next));
    assert_eq!(km.lookup(key(KeyCode::Char('x'))), Some(Action::Next));
    assert_eq!(km.lookup(key(KeyCode::Char('b'))), Some(Action::Previous));
    assert_eq!(km.lookup(key(KeyCode::F(7))), None);
}

#[test]
fn case_does_not_matter_beyond_ascii() {
    assert_eq!(parse_key("É"), parse_key("é"));
    assert_eq!(parse_key("é"), Some(key(KeyCode::Char('é'))));
    assert_eq!(parse_key(" Ctrl-Ä "), parse_key("ctrl-ä"));
}
