//! The decisions of the MPRIS player service.
//!
//! The program owns the DBus connection and the player proxies; it reads
//! the player's properties and hands the raw values to the functions here,
//! which turn them into a [`PlayerSnapshot`], compute what a seek or a
//! volume request sends, and decide how a volume request ended.

use vstd::prelude::*;

use super::parser::{parse_metadata, parse_status, spec_status, spec_track, MetaValue};
use crate::common::error::PlayerError;
use crate::domain::player::{opt_track, SnapshotView};
use crate::domain::track::opt_str;
use crate::domain::{Duration, PlaybackState, PlayerSnapshot};

verus! {

/// A DBus failure, carried by the text it displays as.
pub fn zbus_err(message: String) -> (r: PlayerError)
    ensures
        r == PlayerError::Dbus(message),
{
    PlayerError::Dbus(message)
}

/// A reported position in microseconds, negative values counting as zero.
pub open spec fn clamped_micros(position: i64) -> nat {
    if position > 0 {
        position as nat
    } else {
        0
    }
}

/// The position a refresh records: the reported one, or zero when the
/// player failed to report it.
pub open spec fn refresh_micros(position: Option<i64>) -> nat {
    match position {
        Some(p) => clamped_micros(p),
        None => 0,
    }
}

/// The span of a reported position.
fn position_of(position: i64) -> (d: Duration)
    ensures
        d == Duration::spec_from_micros(clamped_micros(position)),
        d.wf(),
{
    let micros: u64 = if position > 0 {
        position as u64
    } else {
        0
    };
    Duration::from_micros(micros)
}

/// The snapshot that one full refresh of a player yields from the values
/// it read: its bus name and identity, the parsed metadata and playback
/// status, the position (zero when unreadable, never negative) and the
/// volume in percent.
pub fn build_snapshot(
    bus_name: &str,
    identity: Option<String>,
    metadata: &[(String, MetaValue)],
    status_raw: &str,
    position: Option<i64>,
    volume: u8,
) -> (r: PlayerSnapshot)
    ensures
        opt_str(r.bus_name) == Some(bus_name@),
        r.identity == identity,
        opt_track(r.track) == Some(spec_track(metadata@)),
        r.playback.status == spec_status(status_raw@),
        r.playback.position == Duration::spec_from_micros(refresh_micros(position)),
        r.playback.volume == volume,
{
    let track = parse_metadata(metadata);
    let micros: i64 = match position {
        Some(p) => p,
        None => 0,
    };
    let playback = PlaybackState {
        status: parse_status(status_raw),
        position: position_of(micros),
        volume,
    };
    PlayerSnapshot {
        bus_name: Some(String::from_str(bus_name)),
        identity,
        track: Some(track),
        playback,
    }
}

/// The snapshot after a position poll: `snapshot` with its position
/// replaced by the reported one (negative values counting as zero).
pub fn with_position(snapshot: PlayerSnapshot, position: i64) -> (r: PlayerSnapshot)
    ensures
        r@ == (SnapshotView {
            playback: PlaybackState {
                position: Duration::spec_from_micros(clamped_micros(position)),
                ..snapshot.playback
            },
            ..snapshot@
        }),
{
    let mut s = snapshot;
    s.playback.position = position_of(position);
    s
}

/// The offset in microseconds that a relative seek of `delta_secs` sends,
/// saturating at the bounds of `i64`.
pub fn seek_offset_micros(delta_secs: i64) -> (r: i64)
    ensures
        r == (if delta_secs * 1_000_000 > i64::MAX {
            i64::MAX as int
        } else if delta_secs * 1_000_000 < i64::MIN {
            i64::MIN as int
        } else {
            delta_secs * 1_000_000
        }),
{
    if delta_secs > 9_223_372_036_854i64 {
        i64::MAX
    } else if delta_secs < -9_223_372_036_854i64 {
        i64::MIN
    } else {
        delta_secs * 1_000_000
    }
}

/// The volume a request for `volume` percent asks for: at most 100.
pub fn clamp_volume(volume: u8) -> (r: u8)
    ensures
        r == (if volume > 100 {
            100
        } else {
            volume
        }),
{
    if volume > 100 {
        100
    } else {
        volume
    }
}

/// How a volume request ended, once it was written: it succeeded when the
/// player honoured the write, or else when the per-stream fallback applied
/// it; otherwise the player ignored it.
pub fn volume_outcome(honoured: bool, fallback_applied: bool) -> (r: Result<(), PlayerError>)
    ensures
        r is Ok <==> (honoured || fallback_applied),
        r is Err ==> r == Err::<(), PlayerError>(PlayerError::VolumeIgnored),
{
    if honoured || fallback_applied {
        Ok(())
    } else {
        Err(PlayerError::VolumeIgnored)
    }
}

/// The snapshot after a request for `volume` percent ended with
/// `outcome`: on success only the volume changes, to `volume`; on failure
/// the snapshot stays as it was.
pub fn after_volume_request(
    snapshot: PlayerSnapshot,
    volume: u8,
    outcome: &Result<(), PlayerError>,
) -> (r: PlayerSnapshot)
    ensures
        outcome is Ok ==> r@ == (SnapshotView {
            playback: PlaybackState { volume, ..snapshot.playback },
            ..snapshot@
        }),
        outcome is Err ==> r@ == snapshot@,
{
    let mut s = snapshot;
    if outcome.is_ok() {
        s.playback.volume = volume;
    }
    s
}

} // verus!
