use sptf_tui::common::error::{ArtError, ConfigError, PlayerError};

#[test]
fn player_error_messages() {
    assert_eq!(
        PlayerError::NoPlayerAvailable.message(),
        "no MPRIS-compatible player is currently running"
    );
    assert_eq!(
        PlayerError::PlayerNotFound("vlc".into()).message(),
        "requested player \"vlc\" was not found"
    );
    assert_eq!(
        PlayerError::PlayerNotFound("a\"b".into()).message(),
        "requested player \"a\\\"b\" was not found"
    );
    assert_eq!(PlayerError::DbusUnavailable.message(), "DBus is not available on this session");
    assert_eq!(PlayerError::Dbus("x".into()).message(), "DBus call failed: x");
    assert_eq!(
        PlayerError::InvalidMetadata("bad".into()).message(),
        "received malformed metadata from player: bad"
    );
    assert_eq!(PlayerError::PlayerDisconnected.message(), "the MPRIS player disconnected");
    assert_eq!(PlayerError::VolumeIgnored.message(), "the player ignored the volume change");
}

#[test]
fn art_error_messages() {
    assert_eq!(ArtError::Unavailable.message(), "no album art available for current track");
    assert_eq!(
        ArtError::Network("timeout".into()).message(),
        "network request for album art failed: timeout"
    );
    assert_eq!(ArtError::Decode("eof".into()).message(), "failed to decode image: eof");
    assert_eq!(ArtError::Cache("full".into()).message(), "cache I/O error: full");
}

#[test]
fn config_error_messages() {
    let e = ConfigError::Parse { path: "/c/config.toml".into(), source: "bad key".into() };
    assert_eq!(e.message(), "configuration file at /c/config.toml is invalid: bad key");
    assert_eq!(
        ConfigError::NoConfigDir.message(),
        "could not determine configuration directory for the current user"
    );
    assert_eq!(
        ConfigError::Io("denied".into()).message(),
        "I/O error while reading configuration: denied"
    );
}

#[test]
fn cloned_player_error_is_equal_in_text() {
    let e = PlayerError::Dbus("boom".into());
    assert_eq!(e.clone().message(), e.message());
}
