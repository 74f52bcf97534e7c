//! A consolidated snapshot of a player's observable state.

use vstd::prelude::*;

use super::playback::PlaybackState;
use super::track::{Track, TrackView};

verus! {

/// The value services and UI exchange to describe "what is playing".
#[derive(Debug)]
pub struct PlayerSnapshot {
    /// MPRIS bus name (e.g. `org.mpris.MediaPlayer2.spotify`).
    pub bus_name: Option<String>,
    /// User-friendly identity (`Identity` property), e.g. "Spotify".
    pub identity: Option<String>,
    pub track: Option<Track>,
    pub playback: PlaybackState,
}

/// The content of a [`PlayerSnapshot`], with the track taken by its view.
#[verifier::ext_equal]
pub struct SnapshotView {
    pub bus_name: Option<String>,
    pub identity: Option<String>,
    pub track: Option<TrackView>,
    pub playback: PlaybackState,
}

/// `t` with the track taken by its view.
pub open spec fn opt_track(t: Option<Track>) -> Option<TrackView> {
    match t {
        Some(t) => Some(t@),
        None => None,
    }
}

impl View for PlayerSnapshot {
    type V = SnapshotView;

    open spec fn view(&self) -> SnapshotView {
        SnapshotView {
            bus_name: self.bus_name,
            identity: self.identity,
            track: opt_track(self.track),
            playback: self.playback,
        }
    }
}

impl PlayerSnapshot {
    /// A player is connected when its bus name is known.
    pub fn is_connected(&self) -> (r: bool)
        ensures
            r == self.bus_name.is_some(),
    {
        self.bus_name.is_some()
    }
}

impl Clone for PlayerSnapshot {
    fn clone(&self) -> (r: Self)
        ensures
            r@ == self@,
    {
        let track = match &self.track {
            Some(t) => Some(t.clone()),
            None => None,
        };
        let r = PlayerSnapshot {
            bus_name: self.bus_name.clone(),
            identity: self.identity.clone(),
            track,
            playback: self.playback,
        };
        assert(r@ =~= self@);
        r
    }
}

impl Default for PlayerSnapshot {
    fn default() -> (r: Self)
        ensures
            r.bus_name is None,
            r.identity is None,
            r.track is None,
            r.playback.status == crate::domain::PlaybackStatus::Stopped,
            r.playback.position.wf(),
            r.playback.position.spec_total_nanos() == 0,
            r.playback.volume == 0,
    {
        PlayerSnapshot { bus_name: None, identity: None, track: None, playback: PlaybackState::default() }
    }
}

} // verus!
