//! Playback-related value objects.

use vstd::prelude::*;

use super::duration::Duration;

verus! {

/// MPRIS-equivalent playback status.
#[derive(Debug, Clone, Copy, PartialEq, Eq, Structural)]
pub enum PlaybackStatus {
    Playing,
    Paused,
    Stopped,
}

impl PlaybackStatus {
    /// Whether a track is loaded: playing or paused.
    pub fn is_active(self) -> (r: bool)
        ensures
            r == (self == PlaybackStatus::Playing || self == PlaybackStatus::Paused),
    {
        match self {
            PlaybackStatus::Playing | PlaybackStatus::Paused => true,
            PlaybackStatus::Stopped => false,
        }
    }
}

impl Default for PlaybackStatus {
    fn default() -> (r: Self)
        ensures
            r == PlaybackStatus::Stopped,
    {
        PlaybackStatus::Stopped
    }
}

/// Current playback position, status and volume (0..=100) of a player.
#[derive(Debug, Clone, Copy, PartialEq, Eq)]
pub struct PlaybackState {
    pub status: PlaybackStatus,
    pub position: Duration,
    pub volume: u8,
}

impl PlaybackState {
    /// A stopped player at the start of nothing, at full volume.
    pub fn stopped() -> (r: Self)
        ensures
            r.status == PlaybackStatus::Stopped,
            r.position.wf(),
            r.position.spec_total_nanos() == 0,
            r.volume == 100,
    {
        PlaybackState { status: PlaybackStatus::Stopped, position: Duration::zero(), volume: 100 }
    }
}

impl Default for PlaybackState {
    fn default() -> (r: Self)
        ensures
            r.status == PlaybackStatus::Stopped,
            r.position.wf(),
            r.position.spec_total_nanos() == 0,
            r.volume == 0,
    {
        PlaybackState { status: PlaybackStatus::Stopped, position: Duration::zero(), volume: 0 }
    }
}

} // verus!
