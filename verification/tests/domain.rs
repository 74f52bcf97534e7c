use sptf_tui::domain::{
    Album, Artist, Duration, PlaybackState, PlaybackStatus, PlayerSnapshot, Track,
};
use sptf_tui::state::AppState;
use sptf_tui::utils::time::format_duration;

#[test]
fn is_active_only_for_play_pause() {
    assert!(PlaybackStatus::Playing.is_active());
    assert!(PlaybackStatus::Paused.is_active());
    assert!(!PlaybackStatus::Stopped.is_active());
}

#[test]
fn formats_minutes_seconds() {
    assert_eq!(format_duration(Duration::from_secs(0)), "0:00");
    assert_eq!(format_duration(Duration::from_secs(5)), "0:05");
    assert_eq!(format_duration(Duration::from_secs(65)), "1:05");
    assert_eq!(format_duration(Duration::from_secs(599)), "9:59");
}

#[test]
fn formats_hours_minutes_seconds() {
    assert_eq!(format_duration(Duration::from_secs(3600)), "1:00:00");
    assert_eq!(format_duration(Duration::from_secs(3661)), "1:01:01");
}

#[test]
fn format_duration_ignores_sub_second_part() {
    assert_eq!(format_duration(Duration::new(59, 999_999_999)), "0:59");
    assert_eq!(Duration::new(59, 1_500_000_000), Duration::new(60, 500_000_000));
    assert_eq!(format_duration(Duration::new(59, 1_500_000_000)), "1:00");
    assert_eq!(format_duration(Duration::from_micros(180_000_000)), "3:00");
    assert_eq!(format_duration(Duration::from_secs(36_000)), "10:00:00");
}

#[test]
fn app_state_round_trips_player_snapshot() {
    let mut state = AppState::default();
    assert!(!state.player.is_connected());

    state.set_player(PlayerSnapshot {
        bus_name: Some("org.mpris.MediaPlayer2.spotify".into()),
        identity: Some("Spotify".into()),
        track: Some(Track { title: "Test".into(), ..Track::default() }),
        playback: PlaybackState { status: PlaybackStatus::Playing, ..PlaybackState::stopped() },
    });

    assert!(state.player.is_connected());
    assert_eq!(state.player.identity.as_deref(), Some("Spotify"));
    assert_eq!(state.player.playback.status, PlaybackStatus::Playing);
}

#[test]
fn quit_intent_propagates() {
    let mut state = AppState::default();
    assert!(!state.should_quit);
    state.quit();
    assert!(state.should_quit);
}

#[test]
fn stopped_state_is_at_full_volume() {
    let s = PlaybackState::stopped();
    assert_eq!(s.status, PlaybackStatus::Stopped);
    assert_eq!(s.volume, 100);
    assert_eq!(s.position.as_secs(), 0);
    assert_eq!(PlaybackState::default().volume, 0);
}

#[test]
fn artists_joined_uses_comma_space() {
    let t = Track {
        artists: vec![Artist { name: "Alice".into() }, Artist { name: "Bob".into() }],
        ..Track::default()
    };
    assert_eq!(t.artists_joined(), "Alice, Bob");
    assert_eq!(Track::default().artists_joined(), "");
}

#[test]
fn banner_and_art_url_setters() {
    let mut state = AppState::default();
    state.set_banner("hello".to_string());
    assert_eq!(state.status_banner.as_deref(), Some("hello"));
    state.clear_banner();
    assert!(state.status_banner.is_none());
    assert_eq!(state.current_art_url(), None);
    state.set_player(PlayerSnapshot {
        track: Some(Track {
            album: Some(Album {
                title: "A".into(),
                artist: "B".into(),
                art_url: Some("https://x/a.jpg".into()),
            }),
            ..Track::default()
        }),
        ..PlayerSnapshot::default()
    });
    assert_eq!(state.current_art_url(), Some("https://x/a.jpg"));
}
