use sptf_tui::common::error::PlayerError;
use sptf_tui::domain::{PlaybackState, PlaybackStatus, PlayerSnapshot, Track};
use sptf_tui::services::{MockCall, MockPlayerService, PlayerService};

fn playing() -> PlayerSnapshot {
    PlayerSnapshot {
        bus_name: Some("mock".into()),
        identity: Some("Mock".into()),
        track: Some(Track { title: "First".into(), ..Track::default() }),
        playback: PlaybackState { status: PlaybackStatus::Playing, ..PlaybackState::stopped() },
    }
}

fn snapshot_with(title: &str) -> PlayerSnapshot {
    PlayerSnapshot {
        bus_name: Some("mock".into()),
        identity: Some("Mock".into()),
        track: Some(Track { title: title.into(), ..Track::default() }),
        playback: PlaybackState { status: PlaybackStatus::Playing, ..PlaybackState::stopped() },
    }
}

#[test]
fn play_pause_toggles_and_records() {
    let mut svc = MockPlayerService::new(playing());
    svc.play_pause().unwrap();
    svc.play_pause().unwrap();
    assert_eq!(svc.calls(), vec![MockCall::PlayPause, MockCall::PlayPause]);
    assert_eq!(svc.snapshot().playback.status, PlaybackStatus::Playing);
}

#[test]
fn next_and_previous_cycle_through_playlist() {
    let playlist = vec![
        Track { title: "A".into(), ..Track::default() },
        Track { title: "B".into(), ..Track::default() },
        Track { title: "C".into(), ..Track::default() },
    ];
    let mut svc = MockPlayerService::with_playlist(playing(), playlist);
    svc.next().unwrap();
    assert_eq!(svc.snapshot().track.unwrap().title, "B");
    svc.next().unwrap();
    assert_eq!(svc.snapshot().track.unwrap().title, "C");
    svc.next().unwrap();
    assert_eq!(svc.snapshot().track.unwrap().title, "A");
    svc.previous().unwrap();
    assert_eq!(svc.snapshot().track.unwrap().title, "C");
}

#[test]
fn set_volume_is_clamped_and_recorded() {
    let mut svc = MockPlayerService::new(playing());
    svc.set_volume(255).unwrap();
    svc.set_volume(0).unwrap();
    assert_eq!(svc.snapshot().playback.volume, 0);
    assert_eq!(svc.calls(), vec![MockCall::SetVolume(100), MockCall::SetVolume(0)]);
}

#[test]
fn fail_next_is_one_shot() {
    let mut svc = MockPlayerService::new(playing());
    svc.fail_next(PlayerError::Dbus("boom".into()));
    let err = svc.play_pause().unwrap_err();
    assert!(matches!(err, PlayerError::Dbus(_)));
    assert!(svc.play_pause().is_ok());
}

#[test]
fn snapshot_reflects_setter_changes() {
    let mut svc = MockPlayerService::new(snapshot_with("Initial"));
    assert_eq!(svc.snapshot().track.unwrap().title, "Initial");
    svc.set_snapshot(snapshot_with("Changed"));
    assert_eq!(svc.snapshot().track.unwrap().title, "Changed");
}

#[test]
fn full_control_sequence_records_each_call() {
    let mut svc = MockPlayerService::new(snapshot_with("x"));
    svc.play_pause().unwrap();
    svc.next().unwrap();
    svc.previous().unwrap();
    svc.set_volume(42).unwrap();
    svc.seek_relative(-15).unwrap();
    assert_eq!(
        svc.calls(),
        vec![
            MockCall::PlayPause,
            MockCall::Next,
            MockCall::Previous,
            MockCall::SetVolume(42),
            MockCall::SeekRelative(-15),
        ]
    );
}

#[test]
fn errors_propagate_with_correct_variant() {
    let mut svc = MockPlayerService::new(snapshot_with("x"));
    svc.fail_next(PlayerError::PlayerDisconnected);
    let err = svc.next().unwrap_err();
    assert!(matches!(err, PlayerError::PlayerDisconnected));
}

#[test]
fn snapshot_returns_default_when_unset() {
    let svc = MockPlayerService::new(PlayerSnapshot::default());
    let snap = svc.snapshot();
    assert!(!snap.is_connected());
    assert!(snap.track.is_none());
}

#[test]
fn failed_call_changes_nothing_but_the_pending_error() {
    let mut svc = MockPlayerService::new(playing());
    svc.fail_next(PlayerError::VolumeIgnored);
    assert!(matches!(svc.set_volume(10), Err(PlayerError::VolumeIgnored)));
    assert!(svc.calls().is_empty());
    assert_eq!(svc.snapshot().playback.volume, 100);
    assert_eq!(svc.current().playback.status, PlaybackStatus::Playing);
}

#[test]
fn toggling_twice_restores_paused_and_next_then_previous_returns() {
    let mut paused = playing();
    paused.playback.status = PlaybackStatus::Paused;
    let playlist = vec![
        Track { title: "A".into(), ..Track::default() },
        Track { title: "B".into(), ..Track::default() },
    ];
    let mut svc = MockPlayerService::with_playlist(paused, playlist);
    svc.play_pause().unwrap();
    assert_eq!(svc.snapshot().playback.status, PlaybackStatus::Playing);
    svc.play_pause().unwrap();
    assert_eq!(svc.snapshot().playback.status, PlaybackStatus::Paused);
    svc.previous().unwrap();
    assert_eq!(svc.snapshot().track.unwrap().title, "B");
    svc.next().unwrap();
    assert_eq!(svc.snapshot().track.unwrap().title, "A");
}

#[test]
fn next_without_playlist_keeps_track() {
    let mut svc = MockPlayerService::new(playing());
    svc.next().unwrap();
    svc.previous().unwrap();
    assert_eq!(svc.snapshot().track.unwrap().title, "First");
}
