//! Abstraction over "the thing that controls a media player".

use vstd::prelude::*;

use crate::common::error::PlayerError;
use crate::domain::PlayerSnapshot;

verus! {

/// Operations the UI can invoke on the active player.
pub trait PlayerService {
    /// Most recent observable state. Cheap; safe to call every frame.
    fn snapshot(&self) -> PlayerSnapshot;

    fn play_pause(&mut self) -> Result<(), PlayerError>;

    fn next(&mut self) -> Result<(), PlayerError>;

    fn previous(&mut self) -> Result<(), PlayerError>;

    fn set_volume(&mut self, volume: u8) -> Result<(), PlayerError>;

    fn seek_relative(&mut self, delta_secs: i64) -> Result<(), PlayerError>;
}

} // verus!
