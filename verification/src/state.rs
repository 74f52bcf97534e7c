//! In-memory application state: what the UI renders.
//!
//! Mutations happen through small intent-style methods so the event loop
//! never reaches inside fields.

use vstd::prelude::*;

use crate::domain::player::SnapshotView;
use crate::domain::track::opt_str;
use crate::domain::PlayerSnapshot;

verus! {

/// The single source of truth the UI renders from.
#[derive(Debug)]
pub struct AppState {
    pub should_quit: bool,
    pub player: PlayerSnapshot,
    /// UI-only ephemeral status banner ("Connecting…", error messages, …).
    pub status_banner: Option<String>,
    /// URL of the album art currently shown (or being fetched).
    pub art_url: Option<String>,
}

/// The observable content of an [`AppState`].
#[verifier::ext_equal]
pub struct StateView {
    pub should_quit: bool,
    pub player: SnapshotView,
    pub status_banner: Option<Seq<char>>,
    pub art_url: Option<Seq<char>>,
}

impl View for AppState {
    type V = StateView;

    open spec fn view(&self) -> StateView {
        StateView {
            should_quit: self.should_quit,
            player: self.player@,
            status_banner: opt_str(self.status_banner),
            art_url: opt_str(self.art_url),
        }
    }
}

/// The art URL of the snapshot's track, when its album has one.
pub open spec fn snapshot_art_url(s: SnapshotView) -> Option<Seq<char>> {
    match s.track {
        Some(t) => match t.album {
            Some(a) => a.art_url,
            None => None,
        },
        None => None,
    }
}

impl Default for AppState {
    fn default() -> (r: Self)
        ensures
            !r.should_quit,
            r.player.bus_name is None,
            r.player.identity is None,
            r.player.track is None,
            r.status_banner is None,
            r.art_url is None,
    {
        AppState {
            should_quit: false,
            player: PlayerSnapshot::default(),
            status_banner: None,
            art_url: None,
        }
    }
}

impl AppState {
    /// Ask the event loop to stop.
    pub fn quit(&mut self)
        ensures
            final(self)@ == (StateView { should_quit: true, ..old(self)@ }),
    {
        self.should_quit = true;
    }

    /// Show `snapshot` from now on.
    pub fn set_player(&mut self, snapshot: PlayerSnapshot)
        ensures
            final(self)@ == (StateView { player: snapshot@, ..old(self)@ }),
    {
        self.player = snapshot;
    }

    /// Show `banner` in the status line.
    pub fn set_banner(&mut self, banner: String)
        ensures
            final(self)@ == (StateView { status_banner: Some(banner@), ..old(self)@ }),
    {
        self.status_banner = Some(banner);
    }

    /// Remove the status banner.
    pub fn clear_banner(&mut self)
        ensures
            final(self)@ == (StateView { status_banner: None, ..old(self)@ }),
    {
        self.status_banner = None;
    }

    /// Current art URL from the active track, if any.
    pub fn current_art_url(&self) -> (r: Option<&str>)
        ensures
            r matches Some(u) ==> snapshot_art_url(self@.player) == Some(u@),
            r is None ==> snapshot_art_url(self@.player) is None,
    {
        match &self.player.track {
            Some(t) => match &t.album {
                Some(a) => match &a.art_url {
                    Some(u) => Some(u.as_str()),
                    None => None,
                },
                None => None,
            },
            None => None,
        }
    }
}

} // verus!
