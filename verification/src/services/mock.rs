//! In-memory [`PlayerService`] for tests.
//!
//! Records every call so assertions can verify *what* the UI tried to do.
//! Volume is clamped to 0..=100; `next` / `previous` move through a
//! pre-loaded playlist, wrapping at both ends.

use vstd::prelude::*;

use super::player::PlayerService;
use crate::common::error::PlayerError;
use crate::domain::player::SnapshotView;
use crate::domain::track::TrackView;
use crate::domain::{PlaybackStatus, PlayerSnapshot, Track};

verus! {

/// Record of an action performed on the mock.
#[derive(Debug, Clone, Copy, PartialEq, Eq, Structural)]
pub enum MockCall {
    PlayPause,
    Next,
    Previous,
    SetVolume(u8),
    SeekRelative(i64),
}

/// The status after a play/pause toggle: playing becomes paused, anything
/// else becomes playing.
pub open spec fn toggled(s: PlaybackStatus) -> PlaybackStatus {
    if s == PlaybackStatus::Playing {
        PlaybackStatus::Paused
    } else {
        PlaybackStatus::Playing
    }
}

/// The playlist position after `next`, for a playlist of `n > 0` tracks.
pub open spec fn next_cursor(c: nat, n: nat) -> nat {
    ((c + 1) % n) as nat
}

/// The playlist position after `previous`, for a playlist of `n > 0`
/// tracks.
pub open spec fn prev_cursor(c: nat, n: nat) -> nat {
    if c == 0 {
        (n - 1) as nat
    } else {
        (c - 1) as nat
    }
}

/// Tracks taken by their views.
pub open spec fn tracks_view(v: Seq<Track>) -> Seq<TrackView> {
    v.map_values(|t: Track| t@)
}

/// The observable state of the mock.
#[verifier::ext_equal]
pub struct MockView {
    pub snapshot: SnapshotView,
    pub calls: Seq<MockCall>,
    pub fail_next: Option<PlayerError>,
    pub playlist: Seq<TrackView>,
    pub cursor: nat,
}

/// A player that records calls instead of talking to DBus.
pub struct MockPlayerService {
    snapshot: PlayerSnapshot,
    calls: Vec<MockCall>,
    fail_next: Option<PlayerError>,
    playlist: Vec<Track>,
    cursor: usize,
}

impl View for MockPlayerService {
    type V = MockView;

    closed spec fn view(&self) -> MockView {
        MockView {
            snapshot: self.snapshot@,
            calls: self.calls@,
            fail_next: self.fail_next,
            playlist: tracks_view(self.playlist@),
            cursor: self.cursor as nat,
        }
    }
}

/// What an action call does to the mock: with a pending failure it returns
/// that error, records nothing and clears the failure; otherwise it records
/// `call` and moves to `snapshot_after` and `cursor_after`.
pub open spec fn call_outcome(
    before: MockView,
    after: MockView,
    r: Result<(), PlayerError>,
    call: MockCall,
    snapshot_after: SnapshotView,
    cursor_after: nat,
) -> bool {
    match before.fail_next {
        Some(e) => {
            &&& r == Err::<(), PlayerError>(e)
            &&& after == MockView { fail_next: None, ..before }
        },
        None => {
            &&& r is Ok
            &&& after == MockView {
                calls: before.calls.push(call),
                snapshot: snapshot_after,
                cursor: cursor_after,
                ..before
            }
        },
    }
}

impl MockPlayerService {
    /// The playlist position lies within a non-empty playlist.
    #[verifier::type_invariant]
    spec fn wf(&self) -> bool {
        self.playlist@.len() > 0 ==> self.cursor < self.playlist@.len()
    }

    /// A mock reporting `snapshot`, with no playlist.
    pub fn new(snapshot: PlayerSnapshot) -> (r: Self)
        ensures
            r@ == (MockView {
                snapshot: snapshot@,
                calls: Seq::empty(),
                fail_next: None,
                playlist: Seq::empty(),
                cursor: 0,
            }),
    {
        let r = MockPlayerService {
            snapshot,
            calls: Vec::new(),
            fail_next: None,
            playlist: Vec::new(),
            cursor: 0,
        };
        assert(r@ =~= MockView {
            snapshot: snapshot@,
            calls: Seq::empty(),
            fail_next: None,
            playlist: Seq::empty(),
            cursor: 0,
        });
        r
    }

    /// A mock reporting `snapshot`, positioned at the first track of
    /// `playlist`.
    pub fn with_playlist(snapshot: PlayerSnapshot, playlist: Vec<Track>) -> (r: Self)
        ensures
            r@ == (MockView {
                snapshot: snapshot@,
                calls: Seq::empty(),
                fail_next: None,
                playlist: tracks_view(playlist@),
                cursor: 0,
            }),
    {
        let ghost pv = tracks_view(playlist@);
        let r = MockPlayerService { snapshot, calls: Vec::new(), fail_next: None, playlist, cursor: 0 };
        assert(r@ =~= MockView {
            snapshot: snapshot@,
            calls: Seq::empty(),
            fail_next: None,
            playlist: pv,
            cursor: 0,
        });
        r
    }

    /// Replace the snapshot the mock reports.
    pub fn set_snapshot(&mut self, snapshot: PlayerSnapshot)
        ensures
            final(self)@ == (MockView { snapshot: snapshot@, ..old(self)@ }),
    {
        proof { use_type_invariant(&*self); }
        self.snapshot = snapshot;
        assert(self@ =~= MockView { snapshot: snapshot@, ..old(self)@ });
    }

    /// Make the *next* action call fail with `err`. One-shot.
    pub fn fail_next(&mut self, err: PlayerError)
        ensures
            final(self)@ == (MockView { fail_next: Some(err), ..old(self)@ }),
    {
        proof { use_type_invariant(&*self); }
        self.fail_next = Some(err);
        assert(self@ =~= MockView { fail_next: Some(err), ..old(self)@ });
    }

    /// The calls recorded so far, oldest first.
    pub fn calls(&self) -> (r: Vec<MockCall>)
        ensures
            r@ == self@.calls,
    {
        let r = self.calls.clone();
        assert(r@ =~= self.calls@);
        r
    }

    /// Fail with the pending error if there is one, else record `call`.
    fn record(&mut self, call: MockCall) -> (r: Result<(), PlayerError>)
        ensures
            call_outcome(old(self)@, final(self)@, r, call, old(self)@.snapshot, old(self)@.cursor),
    {
        proof { use_type_invariant(&*self); }
        match &self.fail_next {
            Some(err) => {
                let e = err.clone();
                self.fail_next = None;
                assert(self@ =~= MockView { fail_next: None, ..old(self)@ });
                Err(e)
            },
            None => {
                let mut calls = self.calls.clone();
                assert(calls@ =~= self.calls@);
                calls.push(call);
                self.calls = calls;
                assert(self@ =~= MockView { calls: old(self)@.calls.push(call), ..old(self)@ });
                Ok(())
            },
        }
    }

    /// Most recent snapshot.
    pub fn current(&self) -> (r: PlayerSnapshot)
        ensures
            r@ == self@.snapshot,
    {
        self.snapshot.clone()
    }
}

impl PlayerService for MockPlayerService {
    fn snapshot(&self) -> (r: PlayerSnapshot)
        ensures
            r@ == self@.snapshot,
    {
        self.snapshot.clone()
    }

    fn play_pause(&mut self) -> (r: Result<(), PlayerError>)
        ensures
            call_outcome(
                old(self)@,
                final(self)@,
                r,
                MockCall::PlayPause,
                SnapshotView {
                    playback: crate::domain::PlaybackState {
                        status: toggled(old(self)@.snapshot.playback.status),
                        ..old(self)@.snapshot.playback
                    },
                    ..old(self)@.snapshot
                },
                old(self)@.cursor,
            ),
    {
        proof { use_type_invariant(&*self); }
        let r = self.record(MockCall::PlayPause);
        if r.is_err() {
            return r;
        }
        proof { use_type_invariant(&*self); }
        let next = match self.snapshot.playback.status {
            PlaybackStatus::Playing => PlaybackStatus::Paused,
            _ => PlaybackStatus::Playing,
        };
        self.snapshot.playback.status = next;
        r
    }

    fn next(&mut self) -> (r: Result<(), PlayerError>)
        ensures
            call_outcome(
                old(self)@,
                final(self)@,
                r,
                MockCall::Next,
                if old(self)@.playlist.len() > 0 {
                    SnapshotView {
                        track: Some(
                            old(self)@.playlist[next_cursor(
                                old(self)@.cursor,
                                old(self)@.playlist.len(),
                            ) as int],
                        ),
                        ..old(self)@.snapshot
                    }
                } else {
                    old(self)@.snapshot
                },
                if old(self)@.playlist.len() > 0 {
                    next_cursor(old(self)@.cursor, old(self)@.playlist.len())
                } else {
                    old(self)@.cursor
                },
            ),
    {
        proof { use_type_invariant(&*self); }
        let r = self.record(MockCall::Next);
        if r.is_err() {
            return r;
        }
        proof { use_type_invariant(&*self); }
        let n = self.playlist.len();
        if n > 0 {
            self.cursor = (self.cursor + 1) % n;
            let track = self.playlist[self.cursor].clone();
            self.snapshot.track = Some(track);
        }
        r
    }

    fn previous(&mut self) -> (r: Result<(), PlayerError>)
        ensures
            call_outcome(
                old(self)@,
                final(self)@,
                r,
                MockCall::Previous,
                if old(self)@.playlist.len() > 0 {
                    SnapshotView {
                        track: Some(
                            old(self)@.playlist[prev_cursor(
                                old(self)@.cursor,
                                old(self)@.playlist.len(),
                            ) as int],
                        ),
                        ..old(self)@.snapshot
                    }
                } else {
                    old(self)@.snapshot
                },
                if old(self)@.playlist.len() > 0 {
                    prev_cursor(old(self)@.cursor, old(self)@.playlist.len())
                } else {
                    old(self)@.cursor
                },
            ),
    {
        proof { use_type_invariant(&*self); }
        let r = self.record(MockCall::Previous);
        if r.is_err() {
            return r;
        }
        proof { use_type_invariant(&*self); }
        let n = self.playlist.len();
        if n > 0 {
            self.cursor = if self.cursor == 0 {
                n - 1
            } else {
                self.cursor - 1
            };
            let track = self.playlist[self.cursor].clone();
            self.snapshot.track = Some(track);
        }
        r
    }

    fn set_volume(&mut self, volume: u8) -> (r: Result<(), PlayerError>)
        ensures
            call_outcome(
                old(self)@,
                final(self)@,
                r,
                MockCall::SetVolume(if volume > 100 { 100 } else { volume }),
                SnapshotView {
                    playback: crate::domain::PlaybackState {
                        volume: if volume > 100 {
                            100
                        } else {
                            volume
                        },
                        ..old(self)@.snapshot.playback
                    },
                    ..old(self)@.snapshot
                },
                old(self)@.cursor,
            ),
    {
        proof { use_type_invariant(&*self); }
        let v = if volume > 100 {
            100
        } else {
            volume
        };
        let r = self.record(MockCall::SetVolume(v));
        if r.is_err() {
            return r;
        }
        proof { use_type_invariant(&*self); }
        self.snapshot.playback.volume = v;
        r
    }

    fn seek_relative(&mut self, delta_secs: i64) -> (r: Result<(), PlayerError>)
        ensures
            call_outcome(
                old(self)@,
                final(self)@,
                r,
                MockCall::SeekRelative(delta_secs),
                old(self)@.snapshot,
                old(self)@.cursor,
            ),
    {
        proof { use_type_invariant(&*self); }
        self.record(MockCall::SeekRelative(delta_secs))
    }
}

/// Toggling play/pause twice restores a playing or paused status.
pub proof fn law_toggle_twice(s: PlaybackStatus)
    requires
        s == PlaybackStatus::Playing || s == PlaybackStatus::Paused,
    ensures
        toggled(toggled(s)) == s,
{
}

/// `previous` undoes `next`, and `next` undoes `previous`, on a non-empty
/// playlist.
pub proof fn law_next_previous_inverse(c: nat, n: nat)
    requires
        n > 0,
        c < n,
    ensures
        prev_cursor(next_cursor(c, n), n) == c,
        next_cursor(prev_cursor(c, n), n) == c,
        next_cursor(c, n) < n,
        prev_cursor(c, n) < n,
{
    if c + 1 < n {
        vstd::arithmetic::div_mod::lemma_small_mod((c + 1) as nat, n);
    } else {
        vstd::arithmetic::div_mod::lemma_mod_self_0(n as int);
    }
    if c == 0 {
        vstd::arithmetic::div_mod::lemma_mod_self_0(n as int);
    } else {
        vstd::arithmetic::div_mod::lemma_small_mod(c, n);
    }
}

} // verus!
