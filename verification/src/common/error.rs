//! Error categories that callers react to.
//!
//! Each enum carries plain values; `message` gives the human-readable text
//! that the program shows for it.

use vstd::prelude::*;

use crate::text::push_str;

verus! {

/// What `format!("{:?}", s)` prints for the string `s`: the quoted,
/// escaped form; Rust's escaping rules are not restated here.
pub uninterp spec fn debug_str(s: Seq<char>) -> Seq<char>;

/// `<str as Debug>::fmt`, through `format!("{:?}", s)`: the quoted form of
/// `s`, a function of `s` alone.
#[verifier::external_body]
pub(crate) fn debug_quoted(s: &str) -> (r: String)
    ensures
        r@ == debug_str(s@),
{
    format!("{:?}", s)
}

/// Errors that may occur while talking to an MPRIS player.
#[derive(Debug)]
pub enum PlayerError {
    NoPlayerAvailable,
    PlayerNotFound(String),
    DbusUnavailable,
    Dbus(String),
    InvalidMetadata(String),
    PlayerDisconnected,
    VolumeIgnored,
}

/// Errors that may occur while fetching or decoding album art.
#[derive(Debug)]
pub enum ArtError {
    Unavailable,
    Network(String),
    Decode(String),
    Cache(String),
}

/// Errors that may occur while loading or parsing configuration.
#[derive(Debug)]
pub enum ConfigError {
    Parse { path: String, source: String },
    NoConfigDir,
    Io(String),
}

/// Text shown for a [`PlayerError`].
pub open spec fn player_error_text(e: PlayerError) -> Seq<char> {
    match e {
        PlayerError::NoPlayerAvailable => "no MPRIS-compatible player is currently running"@,
        PlayerError::PlayerNotFound(name) => "requested player "@ + debug_str(name@)
            + " was not found"@,
        PlayerError::DbusUnavailable => "DBus is not available on this session"@,
        PlayerError::Dbus(m) => "DBus call failed: "@ + m@,
        PlayerError::InvalidMetadata(m) => "received malformed metadata from player: "@ + m@,
        PlayerError::PlayerDisconnected => "the MPRIS player disconnected"@,
        PlayerError::VolumeIgnored => "the player ignored the volume change"@,
    }
}

/// Text shown for an [`ArtError`].
pub open spec fn art_error_text(e: ArtError) -> Seq<char> {
    match e {
        ArtError::Unavailable => "no album art available for current track"@,
        ArtError::Network(m) => "network request for album art failed: "@ + m@,
        ArtError::Decode(m) => "failed to decode image: "@ + m@,
        ArtError::Cache(m) => "cache I/O error: "@ + m@,
    }
}

/// Text shown for a [`ConfigError`].
pub open spec fn config_error_text(e: ConfigError) -> Seq<char> {
    match e {
        ConfigError::Parse { path, source } => "configuration file at "@ + path@
            + " is invalid: "@ + source@,
        ConfigError::NoConfigDir => "could not determine configuration directory for the current user"@,
        ConfigError::Io(m) => "I/O error while reading configuration: "@ + m@,
    }
}

impl PlayerError {
    /// The human-readable text of this error.
    pub fn message(&self) -> (r: String)
        ensures
            r@ == player_error_text(*self),
    {
        let mut out = String::new();
        match self {
            PlayerError::NoPlayerAvailable => push_str(
                &mut out,
                "no MPRIS-compatible player is currently running",
            ),
            PlayerError::PlayerNotFound(name) => {
                push_str(&mut out, "requested player ");
                let q = debug_quoted(name.as_str());
                push_str(&mut out, q.as_str());
                push_str(&mut out, " was not found");
            },
            PlayerError::DbusUnavailable => push_str(
                &mut out,
                "DBus is not available on this session",
            ),
            PlayerError::Dbus(m) => {
                push_str(&mut out, "DBus call failed: ");
                push_str(&mut out, m.as_str());
            },
            PlayerError::InvalidMetadata(m) => {
                push_str(&mut out, "received malformed metadata from player: ");
                push_str(&mut out, m.as_str());
            },
            PlayerError::PlayerDisconnected => push_str(&mut out, "the MPRIS player disconnected"),
            PlayerError::VolumeIgnored => push_str(
                &mut out,
                "the player ignored the volume change",
            ),
        }
        assert(out@ =~= player_error_text(*self));
        out
    }
}

impl Clone for PlayerError {
    fn clone(&self) -> (r: Self)
        ensures
            r == *self,
    {
        match self {
            PlayerError::NoPlayerAvailable => PlayerError::NoPlayerAvailable,
            PlayerError::PlayerNotFound(s) => PlayerError::PlayerNotFound(s.clone()),
            PlayerError::DbusUnavailable => PlayerError::DbusUnavailable,
            PlayerError::Dbus(s) => PlayerError::Dbus(s.clone()),
            PlayerError::InvalidMetadata(s) => PlayerError::InvalidMetadata(s.clone()),
            PlayerError::PlayerDisconnected => PlayerError::PlayerDisconnected,
            PlayerError::VolumeIgnored => PlayerError::VolumeIgnored,
        }
    }
}

impl ArtError {
    /// The human-readable text of this error.
    pub fn message(&self) -> (r: String)
        ensures
            r@ == art_error_text(*self),
    {
        let mut out = String::new();
        match self {
            ArtError::Unavailable => push_str(&mut out, "no album art available for current track"),
            ArtError::Network(m) => {
                push_str(&mut out, "network request for album art failed: ");
                push_str(&mut out, m.as_str());
            },
            ArtError::Decode(m) => {
                push_str(&mut out, "failed to decode image: ");
                push_str(&mut out, m.as_str());
            },
            ArtError::Cache(m) => {
                push_str(&mut out, "cache I/O error: ");
                push_str(&mut out, m.as_str());
            },
        }
        assert(out@ =~= art_error_text(*self));
        out
    }
}

impl ConfigError {
    /// The human-readable text of this error.
    pub fn message(&self) -> (r: String)
        ensures
            r@ == config_error_text(*self),
    {
        let mut out = String::new();
        match self {
            ConfigError::Parse { path, source } => {
                push_str(&mut out, "configuration file at ");
                push_str(&mut out, path.as_str());
                push_str(&mut out, " is invalid: ");
                push_str(&mut out, source.as_str());
            },
            ConfigError::NoConfigDir => push_str(
                &mut out,
                "could not determine configuration directory for the current user",
            ),
            ConfigError::Io(m) => {
                push_str(&mut out, "I/O error while reading configuration: ");
                push_str(&mut out, m.as_str());
            },
        }
        assert(out@ =~= config_error_text(*self));
        out
    }
}

} // verus!
