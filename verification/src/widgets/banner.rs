//! The footer status banner.

use vstd::prelude::*;

use super::tone::Tone;
use crate::domain::player::SnapshotView;
use crate::domain::track::opt_str;
use crate::state::AppState;
use crate::text::push_str;

verus! {

/// What the banner says when nothing asked it to say something: the
/// connected player's identity, or a hint to start one.
pub open spec fn default_description(player: SnapshotView) -> Seq<char> {
    if player.bus_name is Some {
        "connected to "@ + match opt_str(player.identity) {
            Some(id) => id,
            None => "MPRIS player"@,
        }
    } else {
        "no player connected \u{2014} start Spotify (or any MPRIS player)"@
    }
}

/// The banner's default text for `state`.
pub fn describe_default(state: &AppState) -> (r: String)
    ensures
        r@ == default_description(state@.player),
{
    if state.player.is_connected() {
        let mut out = String::from_str("connected to ");
        match &state.player.identity {
            Some(id) => push_str(&mut out, id.as_str()),
            None => push_str(&mut out, "MPRIS player"),
        }
        proof {
            reveal_strlit("connected to ");
            reveal_strlit("MPRIS player");
        }
        out
    } else {
        String::from_str("no player connected \u{2014} start Spotify (or any MPRIS player)")
    }
}

/// The text of the banner and its role.
pub struct BannerView {
    pub text: String,
    pub tone: Tone,
}

/// What the banner shows: the status message as a warning when there is
/// one, else the default description, muted.
pub fn banner_view(state: &AppState) -> (r: BannerView)
    ensures
        r.text@ == (match state@.status_banner {
            Some(b) => b,
            None => default_description(state@.player),
        }),
        r.tone == (if state@.status_banner is Some {
            Tone::Warn
        } else {
            Tone::Muted
        }),
{
    match &state.status_banner {
        Some(b) => BannerView { text: b.clone(), tone: Tone::Warn },
        None => BannerView { text: describe_default(state), tone: Tone::Muted },
    }
}

} // verus!
