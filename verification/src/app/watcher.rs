//! Decisions of the player watcher: which DBus signals call for a refresh,
//! and when the player is gone.

use vstd::prelude::*;

use super::events::AppEvent;
use crate::common::error::PlayerError;
use crate::domain::PlayerSnapshot;
use crate::text::{chars_eq_str, chars_of};

verus! {

/// A signal or tick the watcher receives.
#[derive(Debug)]
pub enum WatcherSignal {
    /// `PropertiesChanged` on the player object, for `interface`.
    PropertiesChanged { interface: String },
    /// `NameOwnerChanged` for `name`; `has_new_owner` is false when the name
    /// was released.
    NameOwnerChanged { name: String, has_new_owner: bool },
    /// The position poll fired.
    Tick,
}

/// What the watcher does with a signal.
#[derive(Debug, Clone, Copy, PartialEq, Eq, Structural)]
pub enum WatcherStep {
    /// Nothing.
    Ignore,
    /// Re-read every property and push the snapshot.
    Refresh,
    /// Re-read the position only and push the snapshot.
    RefreshPosition,
    /// Report the player as disconnected and stop.
    Disconnected,
}

/// The MPRIS player interface.
pub open spec fn player_interface() -> Seq<char> {
    "org.mpris.MediaPlayer2.Player"@
}

/// What the watcher does for `signal` while watching `bus_name`: a property
/// change on the player interface refreshes everything, the release of the
/// watched name disconnects, the poll refreshes the position.
pub open spec fn spec_watcher_step(bus_name: Seq<char>, signal: WatcherSignal) -> WatcherStep {
    match signal {
        WatcherSignal::PropertiesChanged { interface } => if interface@ == player_interface() {
            WatcherStep::Refresh
        } else {
            WatcherStep::Ignore
        },
        WatcherSignal::NameOwnerChanged { name, has_new_owner } => if name@ == bus_name
            && !has_new_owner {
            WatcherStep::Disconnected
        } else {
            WatcherStep::Ignore
        },
        WatcherSignal::Tick => WatcherStep::RefreshPosition,
    }
}

/// Decide what the watcher does for `signal`.
pub fn watcher_step(bus_name: &str, signal: &WatcherSignal) -> (r: WatcherStep)
    ensures
        r == spec_watcher_step(bus_name@, *signal),
{
    match signal {
        WatcherSignal::PropertiesChanged { interface } => {
            let v = chars_of(interface.as_str());
            assert(v@.subrange(0, v@.len() as int) =~= v@);
            if chars_eq_str(v.as_slice(), 0, v.len(), "org.mpris.MediaPlayer2.Player") {
                WatcherStep::Refresh
            } else {
                WatcherStep::Ignore
            }
        },
        WatcherSignal::NameOwnerChanged { name, has_new_owner } => {
            let v = chars_of(name.as_str());
            assert(v@.subrange(0, v@.len() as int) =~= v@);
            if !*has_new_owner && chars_eq_str(v.as_slice(), 0, v.len(), bus_name) {
                WatcherStep::Disconnected
            } else {
                WatcherStep::Ignore
            }
        },
        WatcherSignal::Tick => WatcherStep::RefreshPosition,
    }
}

/// Milliseconds between position polls: the configured interval, but at
/// least 100.
pub fn position_poll_ms(configured_ms: u64) -> (r: u64)
    ensures
        r == (if configured_ms < 100 {
            100
        } else {
            configured_ms
        }),
{
    if configured_ms < 100 {
        100
    } else {
        configured_ms
    }
}

/// What the watcher sends after a step, and whether it goes on watching
/// once the event is delivered.
#[derive(Debug)]
pub struct WatcherReport {
    pub event: AppEvent,
    pub keep_watching: bool,
}

/// The report of a refresh or a position refresh: a new snapshot is sent
/// and watching goes on; a failure is sent as a player error and the
/// watcher stops.
pub fn refresh_report(result: Result<PlayerSnapshot, PlayerError>) -> (r: WatcherReport)
    ensures
        (match result {
            Ok(s) => r.event == AppEvent::PlayerSnapshot(s) && r.keep_watching,
            Err(e) => r.event == AppEvent::PlayerError(e) && !r.keep_watching,
        }),
{
    match result {
        Ok(s) => WatcherReport { event: AppEvent::PlayerSnapshot(s), keep_watching: true },
        Err(e) => WatcherReport { event: AppEvent::PlayerError(e), keep_watching: false },
    }
}

/// The report once the watched name is released: the player is reported
/// disconnected and the watcher stops.
pub fn disconnect_report() -> (r: WatcherReport)
    ensures
        r.event == AppEvent::PlayerError(PlayerError::PlayerDisconnected),
        !r.keep_watching,
{
    WatcherReport { event: AppEvent::PlayerError(PlayerError::PlayerDisconnected), keep_watching: false }
}

/// Whether the watcher goes on after sending a report that asked for
/// `keep_watching`: only when it did and the event was delivered (a closed
/// channel ends the watcher).
pub fn keeps_watching(keep_watching: bool, delivered: bool) -> (r: bool)
    ensures
        r == (keep_watching && delivered),
{
    keep_watching && delivered
}

} // verus!
