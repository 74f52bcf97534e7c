//! High-level user intents.

use vstd::prelude::*;

verus! {

/// A user intent, decoupled from the keys that trigger it.
#[derive(Debug, Clone, Copy, PartialEq, Eq, Structural)]
pub enum Action {
    Quit,
    TogglePlayPause,
    Next,
    Previous,
    VolumeUp,
    VolumeDown,
    SeekForward,
    SeekBackward,
    Redraw,
}

} // verus!
