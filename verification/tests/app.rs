use sptf_tui::app::events::{dispatch, on_connect, on_event, report_command_result, tick_interval_ms};
use sptf_tui::app::watcher::{
    disconnect_report, keeps_watching, position_poll_ms, refresh_report, watcher_step,
    WatcherSignal, WatcherStep,
};
use sptf_tui::app::{AppEvent, PlayerCommand, Reaction};
use sptf_tui::common::error::PlayerError;
use sptf_tui::common::logging::{default_filter_directive, mirrors_to_stderr};
use sptf_tui::domain::{PlayerSnapshot, Track};
use sptf_tui::input::{Action, KeyCode, KeyCombo, KeyModifiers, Keymap};
use sptf_tui::state::AppState;

fn snapshot(title: &str) -> PlayerSnapshot {
    PlayerSnapshot {
        bus_name: Some("org.mpris.MediaPlayer2.spotify".into()),
        identity: Some("Spotify".into()),
        track: Some(Track { title: title.into(), ..Track::default() }),
        ..PlayerSnapshot::default()
    }
}

#[test]
fn bound_keys_dispatch_and_unbound_do_nothing() {
    let km = Keymap::defaults();
    let mut state = AppState::default();
    let r = on_event(&mut state, &km, AppEvent::Key(KeyCombo::new(KeyCode::Char('n'), KeyModifiers::none())));
    assert_eq!(r, Reaction::Dispatch(Action::Next));
    let r = on_event(&mut state, &km, AppEvent::Key(KeyCombo::new(KeyCode::F(9), KeyModifiers::none())));
    assert_eq!(r, Reaction::Nothing);
    assert!(!state.should_quit);
    assert_eq!(on_event(&mut state, &km, AppEvent::Tick), Reaction::Nothing);
    assert_eq!(on_event(&mut state, &km, AppEvent::Resize(80, 24)), Reaction::Nothing);
    assert!(state.status_banner.is_none());
}

#[test]
fn snapshot_event_replaces_player_and_clears_banner() {
    let km = Keymap::defaults();
    let mut state = AppState::default();
    state.set_banner("stale".to_string());
    let r = on_event(&mut state, &km, AppEvent::PlayerSnapshot(snapshot("Song")));
    assert_eq!(r, Reaction::Nothing);
    assert!(state.status_banner.is_none());
    assert_eq!(state.player.track.as_ref().unwrap().title, "Song");
}

#[test]
fn error_events_set_banners() {
    let km = Keymap::defaults();
    let mut state = AppState::default();
    let r = on_event(&mut state, &km, AppEvent::PlayerError(PlayerError::PlayerDisconnected));
    assert_eq!(r, Reaction::DropPlayer);
    assert_eq!(state.status_banner.as_deref(), Some("player error: the MPRIS player disconnected"));
    let r = on_event(&mut state, &km, AppEvent::InputError("tty closed".into()));
    assert_eq!(r, Reaction::Nothing);
    assert_eq!(state.status_banner.as_deref(), Some("input error: tty closed"));
}

#[test]
fn quit_and_redraw_act_on_state() {
    let mut state = AppState::default();
    assert_eq!(dispatch(&mut state, Action::Quit, None), None);
    assert!(state.should_quit);
    state.set_banner("x".into());
    assert_eq!(dispatch(&mut state, Action::Redraw, Some(10)), None);
    assert!(state.status_banner.is_none());
    state.set_banner("No MPRIS player detected".into());
    assert_eq!(dispatch(&mut state, Action::Redraw, None), Some(PlayerCommand::Connect));
    assert!(state.status_banner.is_none());
}

#[test]
fn player_actions_need_a_player() {
    let mut state = AppState::default();
    assert_eq!(dispatch(&mut state, Action::Next, None), None);
    assert_eq!(state.status_banner.as_deref(), Some("no player connected"));
}

#[test]
fn player_actions_become_commands() {
    let mut state = AppState::default();
    assert_eq!(dispatch(&mut state, Action::TogglePlayPause, Some(50)), Some(PlayerCommand::PlayPause));
    assert_eq!(dispatch(&mut state, Action::Previous, Some(50)), Some(PlayerCommand::Previous));
    assert_eq!(dispatch(&mut state, Action::VolumeUp, Some(50)), Some(PlayerCommand::SetVolume(55)));
    assert_eq!(dispatch(&mut state, Action::VolumeUp, Some(98)), Some(PlayerCommand::SetVolume(100)));
    assert_eq!(dispatch(&mut state, Action::VolumeDown, Some(3)), Some(PlayerCommand::SetVolume(0)));
    assert_eq!(dispatch(&mut state, Action::VolumeDown, Some(50)), Some(PlayerCommand::SetVolume(45)));
    assert_eq!(dispatch(&mut state, Action::SeekForward, Some(0)), Some(PlayerCommand::SeekRelative(5)));
    assert_eq!(dispatch(&mut state, Action::SeekBackward, Some(0)), Some(PlayerCommand::SeekRelative(-5)));
    assert!(state.status_banner.is_none());
}

#[test]
fn failed_commands_are_reported() {
    let mut state = AppState::default();
    report_command_result(&mut state, Ok(()));
    assert!(state.status_banner.is_none());
    report_command_result(&mut state, Err(PlayerError::VolumeIgnored));
    assert!(state.status_banner.as_deref().unwrap().starts_with("action failed: "));
}

#[test]
fn connecting_shows_snapshot_or_reason() {
    let mut state = AppState::default();
    assert!(on_connect(&mut state, Ok(snapshot("Hello"))));
    assert_eq!(state.player.track.as_ref().unwrap().title, "Hello");
    let mut state = AppState::default();
    assert!(!on_connect(&mut state, Err(PlayerError::NoPlayerAvailable)));
    assert_eq!(
        state.status_banner.as_deref(),
        Some("No MPRIS player detected \u{2014} start one and press r")
    );
    let mut state = AppState::default();
    assert!(!on_connect(&mut state, Err(PlayerError::Dbus("no bus".into()))));
    assert_eq!(state.status_banner.as_deref(), Some("MPRIS unavailable: DBus call failed: no bus"));
}

#[test]
fn frame_rate_sets_tick_interval() {
    assert_eq!(tick_interval_ms(30), 33);
    assert_eq!(tick_interval_ms(0), 1000);
    assert_eq!(tick_interval_ms(1000), 4);
    assert_eq!(tick_interval_ms(60), 16);
}

#[test]
fn watcher_reacts_to_signals() {
    let bus = "org.mpris.MediaPlayer2.spotify";
    let changed = WatcherSignal::PropertiesChanged { interface: "org.mpris.MediaPlayer2.Player".into() };
    assert_eq!(watcher_step(bus, &changed), WatcherStep::Refresh);
    let other = WatcherSignal::PropertiesChanged { interface: "org.mpris.MediaPlayer2".into() };
    assert_eq!(watcher_step(bus, &other), WatcherStep::Ignore);
    let gone = WatcherSignal::NameOwnerChanged { name: bus.into(), has_new_owner: false };
    assert_eq!(watcher_step(bus, &gone), WatcherStep::Disconnected);
    let moved = WatcherSignal::NameOwnerChanged { name: bus.into(), has_new_owner: true };
    assert_eq!(watcher_step(bus, &moved), WatcherStep::Ignore);
    let elsewhere = WatcherSignal::NameOwnerChanged { name: "org.mpris.MediaPlayer2.vlc".into(), has_new_owner: false };
    assert_eq!(watcher_step(bus, &elsewhere), WatcherStep::Ignore);
    assert_eq!(watcher_step(bus, &WatcherSignal::Tick), WatcherStep::RefreshPosition);
    assert_eq!(position_poll_ms(500), 500);
    assert_eq!(position_poll_ms(10), 100);
}

#[test]
fn log_filter_follows_verbosity() {
    assert_eq!(default_filter_directive("warn", 0), "sptf_tui=warn,warn");
    assert_eq!(default_filter_directive("warn", 1), "sptf_tui=info,warn");
    assert_eq!(default_filter_directive("warn", 2), "sptf_tui=debug,warn");
    assert_eq!(default_filter_directive("warn", 7), "sptf_tui=trace,warn");
    assert!(!mirrors_to_stderr(0));
    assert!(mirrors_to_stderr(3));
}

#[test]
fn volume_steps_undo_each_other() {
    let mut state = AppState::default();
    assert_eq!(dispatch(&mut state, Action::VolumeUp, Some(40)), Some(PlayerCommand::SetVolume(45)));
    assert_eq!(dispatch(&mut state, Action::VolumeDown, Some(45)), Some(PlayerCommand::SetVolume(40)));
    assert_eq!(dispatch(&mut state, Action::VolumeDown, Some(5)), Some(PlayerCommand::SetVolume(0)));
    assert_eq!(dispatch(&mut state, Action::VolumeUp, Some(0)), Some(PlayerCommand::SetVolume(5)));
}

#[test]
fn watcher_reports_refreshes_and_stops_on_failure() {
    let ok = refresh_report(Ok(snapshot("Song")));
    assert!(ok.keep_watching);
    assert!(matches!(&ok.event, AppEvent::PlayerSnapshot(s) if s.track.as_ref().unwrap().title == "Song"));
    let failed = refresh_report(Err(PlayerError::Dbus("gone".into())));
    assert!(!failed.keep_watching);
    assert!(matches!(&failed.event, AppEvent::PlayerError(PlayerError::Dbus(m)) if m == "gone"));
    let gone = disconnect_report();
    assert!(!gone.keep_watching);
    assert!(matches!(gone.event, AppEvent::PlayerError(PlayerError::PlayerDisconnected)));
    assert!(keeps_watching(true, true));
    assert!(!keeps_watching(true, false));
    assert!(!keeps_watching(false, true));
}
