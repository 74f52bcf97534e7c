//! The playback controls pane's status line: status icon and label, the
//! player's identity and the elapsed and total time.

use vstd::prelude::*;

use super::tone::Tone;
use crate::domain::player::SnapshotView;
use crate::domain::track::{opt_str, TrackView};
use crate::domain::{Duration, PlaybackStatus, PlayerSnapshot};
use crate::text::push_str;
use crate::utils::time::{duration_text, format_duration};

verus! {

/// The icon shown for a playback status.
pub open spec fn status_icon(status: PlaybackStatus) -> Seq<char> {
    match status {
        PlaybackStatus::Playing => "\u{25b6}"@,
        PlaybackStatus::Paused => "\u{23f8}"@,
        PlaybackStatus::Stopped => "\u{23f9}"@,
    }
}

/// The word shown for a playback status.
pub open spec fn status_label(status: PlaybackStatus) -> Seq<char> {
    match status {
        PlaybackStatus::Playing => "Playing"@,
        PlaybackStatus::Paused => "Paused"@,
        PlaybackStatus::Stopped => "Stopped"@,
    }
}

/// The role of the icon and word of a playback status.
pub open spec fn status_tone(status: PlaybackStatus) -> Tone {
    match status {
        PlaybackStatus::Playing => Tone::Accent,
        PlaybackStatus::Paused => Tone::Warn,
        PlaybackStatus::Stopped => Tone::Muted,
    }
}

/// Whole seconds of the track's length; zero when unknown.
pub open spec fn length_secs(track: Option<TrackView>) -> nat {
    match track {
        Some(t) => match t.length {
            Some(d) => d.spec_secs(),
            None => 0,
        },
        None => 0,
    }
}

/// `position / length`, each as `m:ss` or `h:mm:ss`.
pub open spec fn time_text(player: SnapshotView) -> Seq<char> {
    duration_text(player.playback.position.spec_secs()) + " / "@ + duration_text(
        length_secs(player.track),
    )
}

/// The identity shown: the player's, or `no player`.
pub open spec fn identity_text(player: SnapshotView) -> Seq<char> {
    match opt_str(player.identity) {
        Some(id) => id,
        None => "no player"@,
    }
}

/// The pieces of the status line.
pub struct StatusLine {
    pub icon: String,
    pub label: String,
    /// Role of the icon and the label.
    pub tone: Tone,
    pub identity: String,
    pub time: String,
}

/// The status line for `snapshot`.
pub fn status_line(snapshot: &PlayerSnapshot) -> (r: StatusLine)
    ensures
        r.icon@ == status_icon(snapshot.playback.status),
        r.label@ == status_label(snapshot.playback.status),
        r.tone == status_tone(snapshot.playback.status),
        r.identity@ == identity_text(snapshot@),
        r.time@ == time_text(snapshot@),
{
    let (icon, label, tone) = match snapshot.playback.status {
        PlaybackStatus::Playing => ("\u{25b6}", "Playing", Tone::Accent),
        PlaybackStatus::Paused => ("\u{23f8}", "Paused", Tone::Warn),
        PlaybackStatus::Stopped => ("\u{23f9}", "Stopped", Tone::Muted),
    };
    let identity = match &snapshot.identity {
        Some(id) => id.clone(),
        None => String::from_str("no player"),
    };
    let length = match &snapshot.track {
        Some(t) => match t.length {
            Some(d) => d,
            None => Duration::zero(),
        },
        None => Duration::zero(),
    };
    let mut time = format_duration(snapshot.playback.position);
    push_str(&mut time, " / ");
    let total = format_duration(length);
    push_str(&mut time, total.as_str());
    proof {
        reveal_strlit(" / ");
    }
    StatusLine {
        icon: String::from_str(icon),
        label: String::from_str(label),
        tone,
        identity,
        time,
    }
}

} // verus!
