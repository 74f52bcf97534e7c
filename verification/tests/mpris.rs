use sptf_tui::common::error::PlayerError;
use sptf_tui::domain::{Duration, PlaybackStatus, PlayerSnapshot};
use sptf_tui::mpris::discovery::{choose_player, filter_mpris_names, select_lowered, select_player};
use sptf_tui::mpris::pactl::{parse_sink_input_for_pid, volume_percent_arg};
use sptf_tui::mpris::parser::{parse_metadata, parse_status, MetaValue};
use sptf_tui::mpris::service::{
    after_volume_request, build_snapshot, clamp_volume, seek_offset_micros, volume_outcome, with_position, zbus_err,
};

fn str_val(s: &str) -> MetaValue {
    MetaValue::Str(s.to_string())
}

fn arr_val(items: &[&str]) -> MetaValue {
    MetaValue::Array(items.iter().map(|s| MetaValue::Str((*s).to_string())).collect())
}

fn entry(k: &str, v: MetaValue) -> (String, MetaValue) {
    (k.to_string(), v)
}

#[test]
fn select_prefers_substring_match() {
    let names = vec![
        "org.mpris.MediaPlayer2.mpv".to_string(),
        "org.mpris.MediaPlayer2.spotify".to_string(),
        "org.mpris.MediaPlayer2.VLC".to_string(),
    ];
    assert_eq!(select_player(&names, Some("spotify")), Some("org.mpris.MediaPlayer2.spotify"));
}

#[test]
fn select_is_case_insensitive() {
    let names = vec!["org.mpris.MediaPlayer2.VLC".to_string()];
    assert_eq!(select_player(&names, Some("vlc")), Some("org.mpris.MediaPlayer2.VLC"));
}

#[test]
fn select_falls_back_to_first_when_preference_missing() {
    let names = vec!["org.mpris.MediaPlayer2.mpv".to_string()];
    assert_eq!(select_player(&names, Some("spotify")), Some("org.mpris.MediaPlayer2.mpv"));
}

#[test]
fn select_returns_none_when_empty() {
    assert_eq!(select_player(&[], Some("spotify")), None);
    assert_eq!(select_player(&[], None), None);
}

#[test]
fn select_without_preference_takes_first() {
    let names = vec!["org.mpris.MediaPlayer2.xx".to_string(), "org.mpris.MediaPlayer2.zz".to_string()];
    assert_eq!(select_player(&names, None), Some("org.mpris.MediaPlayer2.xx"));
    assert_eq!(select_player(&names, Some("ZZ")), Some("org.mpris.MediaPlayer2.zz"));
    assert_eq!(select_player(&names, Some("")), Some("org.mpris.MediaPlayer2.xx"));
}

#[test]
fn only_mpris_names_are_kept() {
    let names = vec![
        "org.freedesktop.DBus".to_string(),
        "org.mpris.MediaPlayer2.spotify".to_string(),
        ":1.42".to_string(),
        "org.mpris.MediaPlayer2.mpv".to_string(),
        "org.mpris.MediaPlayer".to_string(),
    ];
    assert_eq!(
        filter_mpris_names(names),
        vec!["org.mpris.MediaPlayer2.spotify".to_string(), "org.mpris.MediaPlayer2.mpv".to_string()]
    );
}

#[test]
fn parses_matching_pid() {
    let sample = "Sink Input #42\n\
        \tDriver: PipeWire\n\
        \tProperties:\n\
        \t\tapplication.process.id = \"9999\"\n\
        Sink Input #43\n\
        \tDriver: PipeWire\n\
        \tProperties:\n\
        \t\tapplication.process.id = \"12345\"\n\
        \t\tapplication.name = \"Spotify\"\n";
    assert_eq!(parse_sink_input_for_pid(sample, 12345), Some(43));
    assert_eq!(parse_sink_input_for_pid(sample, 9999), Some(42));
}

#[test]
fn returns_none_when_pid_absent() {
    let sample = "Sink Input #1\n\
        \tProperties:\n\
        \t\tapplication.process.id = \"7\"\n";
    assert_eq!(parse_sink_input_for_pid(sample, 99), None);
}

#[test]
fn returns_none_for_empty_input() {
    assert_eq!(parse_sink_input_for_pid("", 1), None);
}

#[test]
fn pid_line_before_any_record_is_ignored() {
    let sample = "application.process.id = \"5\"\r\nSink Input # 8 \r\n  application.process.id = \"5\"\r\n";
    assert_eq!(parse_sink_input_for_pid(sample, 5), Some(8));
    let bad_index = "Sink Input #x\n\tapplication.process.id = \"5\"\n";
    assert_eq!(parse_sink_input_for_pid(bad_index, 5), None);
}

#[test]
fn volume_argument_is_capped_percent() {
    assert_eq!(volume_percent_arg(0), "0%");
    assert_eq!(volume_percent_arg(42), "42%");
    assert_eq!(volume_percent_arg(255), "100%");
}

#[test]
fn parses_title_artist_album_length() {
    let map = vec![
        entry("xesam:title", str_val("Test Track")),
        entry("xesam:artist", arr_val(&["Alice", "Bob"])),
        entry("xesam:album", str_val("Greatest Hits")),
        entry("xesam:albumArtist", arr_val(&["Alice"])),
        entry("mpris:length", MetaValue::I64(180_000_000)),
        entry("mpris:artUrl", str_val("https://example.com/a.jpg")),
        entry("xesam:url", str_val("spotify:track:abc")),
    ];
    let track = parse_metadata(&map);
    assert_eq!(track.title, "Test Track");
    assert_eq!(track.artists_joined(), "Alice, Bob");
    let album = track.album.expect("album present");
    assert_eq!(album.title, "Greatest Hits");
    assert_eq!(album.artist, "Alice");
    assert_eq!(album.art_url.as_deref(), Some("https://example.com/a.jpg"));
    assert_eq!(track.length, Some(Duration::from_secs(180)));
    assert_eq!(track.url.as_deref(), Some("spotify:track:abc"));
}

#[test]
fn ignores_zero_length() {
    let map = vec![entry("xesam:title", str_val("x")), entry("mpris:length", MetaValue::I64(0))];
    let track = parse_metadata(&map);
    assert!(track.length.is_none());
}

#[test]
fn missing_album_yields_none() {
    let map = vec![entry("xesam:title", str_val("x"))];
    let track = parse_metadata(&map);
    assert!(track.album.is_none());
}

#[test]
fn falls_back_to_artist_when_album_artist_missing() {
    let map = vec![
        entry("xesam:title", str_val("x")),
        entry("xesam:album", str_val("y")),
        entry("xesam:artist", arr_val(&["Solo"])),
    ];
    let track = parse_metadata(&map);
    assert_eq!(track.album.unwrap().artist, "Solo");
}

#[test]
fn track_id_accepts_object_path_and_string() {
    let a = parse_metadata(&[entry("mpris:trackid", MetaValue::ObjectPath("/org/x/1".into()))]);
    assert_eq!(a.track_id.as_deref(), Some("/org/x/1"));
    let b = parse_metadata(&[entry("mpris:trackid", str_val("spotify:track:1"))]);
    assert_eq!(b.track_id.as_deref(), Some("spotify:track:1"));
    let c = parse_metadata(&[entry("mpris:length", MetaValue::U64(2_500_000))]);
    assert_eq!(c.length, Some(Duration::from_micros(2_500_000)));
    assert_eq!(c.title, "");
}

#[test]
fn parse_status_handles_known_and_unknown() {
    assert_eq!(parse_status("Playing"), PlaybackStatus::Playing);
    assert_eq!(parse_status("Paused"), PlaybackStatus::Paused);
    assert_eq!(parse_status("Stopped"), PlaybackStatus::Stopped);
    assert_eq!(parse_status("Anything else"), PlaybackStatus::Stopped);
}

#[test]
fn refresh_builds_snapshot_from_raw_values() {
    let meta = vec![entry("xesam:title", str_val("Song"))];
    let s = build_snapshot(
        "org.mpris.MediaPlayer2.spotify",
        Some("Spotify".to_string()),
        &meta,
        "Paused",
        Some(-7),
        55,
    );
    assert_eq!(s.bus_name.as_deref(), Some("org.mpris.MediaPlayer2.spotify"));
    assert_eq!(s.identity.as_deref(), Some("Spotify"));
    assert_eq!(s.track.as_ref().unwrap().title, "Song");
    assert_eq!(s.playback.status, PlaybackStatus::Paused);
    assert_eq!(s.playback.position, Duration::from_secs(0));
    assert_eq!(s.playback.volume, 55);
    let t = build_snapshot("b", None, &meta, "Playing", Some(61_500_000), 0);
    assert_eq!(t.playback.position, Duration::from_micros(61_500_000));
    let u = build_snapshot("b", None, &meta, "Playing", None, 0);
    assert_eq!(u.playback.position, Duration::from_secs(0));
}

#[test]
fn position_poll_replaces_only_the_position() {
    let meta = vec![entry("xesam:title", str_val("Song"))];
    let s = build_snapshot("b", Some("P".into()), &meta, "Playing", Some(1_000_000), 40);
    let t = with_position(s, 5_000_000);
    assert_eq!(t.playback.position, Duration::from_secs(5));
    assert_eq!(t.playback.volume, 40);
    assert_eq!(t.playback.status, PlaybackStatus::Playing);
    assert_eq!(t.identity.as_deref(), Some("P"));
    let u = with_position(PlayerSnapshot::default(), -1);
    assert_eq!(u.playback.position, Duration::from_secs(0));
}

#[test]
fn seek_offset_saturates() {
    assert_eq!(seek_offset_micros(5), 5_000_000);
    assert_eq!(seek_offset_micros(-5), -5_000_000);
    assert_eq!(seek_offset_micros(i64::MAX), i64::MAX);
    assert_eq!(seek_offset_micros(i64::MIN), i64::MIN);
    assert_eq!(seek_offset_micros(9_223_372_036_854), 9_223_372_036_854_000_000);
    assert_eq!(seek_offset_micros(9_223_372_036_855), i64::MAX);
    assert_eq!(seek_offset_micros(-9_223_372_036_854), -9_223_372_036_854_000_000);
    assert_eq!(seek_offset_micros(-9_223_372_036_855), i64::MIN);
}

#[test]
fn volume_request_is_clamped_and_judged() {
    assert_eq!(clamp_volume(42), 42);
    assert_eq!(clamp_volume(100), 100);
    assert_eq!(clamp_volume(101), 100);
    assert!(volume_outcome(true, false).is_ok());
    assert!(volume_outcome(false, true).is_ok());
    assert!(matches!(volume_outcome(false, false), Err(PlayerError::VolumeIgnored)));
}

#[test]
fn dbus_failures_keep_their_text() {
    let e = zbus_err("org.freedesktop.DBus.Error.ServiceUnknown".to_string());
    assert!(matches!(&e, PlayerError::Dbus(m) if m == "org.freedesktop.DBus.Error.ServiceUnknown"));
    assert_eq!(e.message(), "DBus call failed: org.freedesktop.DBus.Error.ServiceUnknown");
}

#[test]
fn connecting_needs_a_player_name() {
    let names = vec!["org.mpris.MediaPlayer2.mpv".to_string(), "org.mpris.MediaPlayer2.vlc".to_string()];
    assert_eq!(choose_player(&names, Some("VLC")).ok().as_deref(), Some("org.mpris.MediaPlayer2.vlc"));
    assert_eq!(choose_player(&names, None).ok().as_deref(), Some("org.mpris.MediaPlayer2.mpv"));
    assert!(matches!(choose_player(&[], Some("vlc")), Err(PlayerError::NoPlayerAvailable)));
}

#[test]
fn selection_on_lowered_names() {
    let lowered = vec!["org.mpris.mediaplayer2.mpv".to_string(), "org.mpris.mediaplayer2.vlc".to_string()];
    assert_eq!(select_lowered(&lowered, Some("vlc")), Some(1));
    assert_eq!(select_lowered(&lowered, Some("VLC")), Some(0));
    assert_eq!(select_lowered(&lowered, None), Some(0));
    assert_eq!(select_lowered(&[], Some("vlc")), None);
}

#[test]
fn volume_request_commits_only_on_success() {
    let meta = vec![entry("xesam:title", str_val("Song"))];
    let s = build_snapshot("b", Some("P".into()), &meta, "Playing", Some(3_000_000), 40);
    let ok = after_volume_request(s.clone(), 70, &Ok(()));
    assert_eq!(ok.playback.volume, 70);
    assert_eq!(ok.playback.position, Duration::from_secs(3));
    assert_eq!(ok.identity.as_deref(), Some("P"));
    let kept = after_volume_request(s, 70, &Err(PlayerError::VolumeIgnored));
    assert_eq!(kept.playback.volume, 40);
}
