//! Strongly-typed configuration sections.

use vstd::prelude::*;

verus! {

/// UI-related preferences.
#[derive(Debug)]
pub struct UiSettings {
    /// Name of the theme to load (`spotify-dark`, `gruvbox-dark`,
    /// `monochrome`).
    pub theme: String,
    /// Frame rate cap for the render loop.
    pub frame_rate: u16,
    /// Whether to render album covers when supported by the terminal.
    pub show_album_art: bool,
}

impl Default for UiSettings {
    fn default() -> (r: Self)
        ensures
            r.theme@ == "spotify-dark"@,
            r.frame_rate == 30,
            r.show_album_art,
    {
        UiSettings { theme: String::from_str("spotify-dark"), frame_rate: 30, show_album_art: true }
    }
}

/// Preferences for selecting MPRIS players.
#[derive(Debug)]
pub struct PlayerSettings {
    /// Preferred player name (substring match on the MPRIS bus name).
    /// `None` means: pick the first active player.
    pub preferred: Option<String>,
    /// Poll interval for position updates.
    pub position_poll_ms: u64,
}

impl Default for PlayerSettings {
    fn default() -> (r: Self)
        ensures
            r.preferred matches Some(p) && p@ == "spotify"@,
            r.position_poll_ms == 500,
    {
        PlayerSettings { preferred: Some(String::from_str("spotify")), position_poll_ms: 500 }
    }
}

/// Logging preferences.
#[derive(Debug)]
pub struct LoggingSettings {
    /// Default tracing filter level applied when `SPTF_LOG` is unset.
    pub level: String,
}

impl Default for LoggingSettings {
    fn default() -> (r: Self)
        ensures
            r.level@ == "warn"@,
    {
        LoggingSettings { level: String::from_str("warn") }
    }
}

/// User keybinding overrides: action name to key strings, in the order the
/// sources list them.
///
/// Action names: `quit`, `toggle_play_pause` (alias `play_pause`), `next`,
/// `previous` (alias `prev`), `volume_up` (alias `vol_up`), `volume_down`
/// (alias `vol_down`), `seek_forward`, `seek_backward`, `redraw` (alias
/// `refresh`). Key syntax: `(modifier-)*key`, e.g. `ctrl-c`, `esc`, `f1`.
#[derive(Debug)]
pub struct KeymapSettings(pub Vec<(String, Vec<String>)>);

/// The entries of a keymap section, strings taken by their views.
pub open spec fn keymap_entries_view(v: Seq<(String, Vec<String>)>) -> Seq<
    (Seq<char>, Seq<Seq<char>>),
> {
    v.map_values(
        |e: (String, Vec<String>)| (e.0@, e.1@.map_values(|k: String| k@)),
    )
}

impl KeymapSettings {
    /// The entries, strings taken by their views.
    pub open spec fn entries(self) -> Seq<(Seq<char>, Seq<Seq<char>>)> {
        keymap_entries_view(self.0@)
    }

    /// The (action, keys) entries, in order.
    pub fn iter(&self) -> (r: &[(String, Vec<String>)])
        ensures
            r@ == self.0@,
    {
        self.0.as_slice()
    }

    /// No overrides.
    pub fn empty() -> (r: Self)
        ensures
            r.0@.len() == 0,
    {
        KeymapSettings(Vec::new())
    }
}

impl Default for KeymapSettings {
    fn default() -> (r: Self)
        ensures
            r.0@.len() == 0,
    {
        KeymapSettings(Vec::new())
    }
}

} // verus!
