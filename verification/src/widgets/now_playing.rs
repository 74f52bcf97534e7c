//! The track-info pane: which of its three layouts is used, and where its
//! content starts.
//!
//! A track with a title is shown with the title drawn large when the pane
//! is wide enough for every character's 4-cell slot plus a margin of two
//! and at least eight rows tall; otherwise in normal-size text. In both
//! layouts the title, the artists and the album appear as text lines (in
//! the large layout, under the large title). Without a titled track the
//! pane says that nothing is playing. In each layout the content is
//! vertically centered.

use vstd::prelude::*;

use crate::domain::player::SnapshotView;
use crate::domain::track::{join, TrackView};
use crate::mpris::parser::strings_view;
use crate::domain::{PlayerSnapshot, Track};

verus! {

/// Cells per glyph of the large title, horizontally.
pub const BIG_GLYPH_W: u16 = 4;

/// Rows of the large title.
pub const BIG_GLYPH_H: u16 = 4;

/// Rows of the large layout: title, gap, artists and album.
pub const BIG_CONTENT_H: u16 = 7;

/// Rows of the message shown when nothing is playing.
pub const EMPTY_CONTENT_H: u16 = 3;

/// The layout of the track-info pane.
#[derive(Debug, Clone, Copy, PartialEq, Eq, Structural)]
pub enum TrackPane {
    /// Nothing is playing; the message starts `top_pad` rows down.
    Empty { top_pad: u16 },
    /// The title is drawn large, followed by the text lines of the track
    /// (title, artists, album); the content starts `top_pad` rows down.
    Big { top_pad: u16 },
    /// Title, artists and (when there is one) album in `lines` rows of
    /// normal text starting `top_pad` rows down.
    Compact { top_pad: u16, lines: u16 },
}

/// Padding that centers `content` rows in `height` rows.
pub open spec fn top_pad(height: int, content: int) -> int {
    (if height > content {
        height - content
    } else {
        0
    }) / 2
}

/// `v` held to at most `u16::MAX`.
pub open spec fn cap(v: int) -> int {
    if v > 65535 {
        65535
    } else {
        v
    }
}

/// Whether a title of `chars` characters is drawn large in a pane of
/// `width` by `height` cells.
pub open spec fn fits_big(chars: nat, width: u16, height: u16) -> bool {
    width >= cap(cap(cap(chars as int) * 4) + 2) && height >= 8
}

/// The album line of a track: its album's title, or nothing.
pub open spec fn album_line(t: TrackView) -> Seq<char> {
    match t.album {
        Some(a) => a.title,
        None => Seq::empty(),
    }
}

/// The layout of the pane for `player` in `width` by `height` cells.
pub open spec fn spec_track_pane(player: SnapshotView, width: u16, height: u16) -> TrackPane {
    match player.track {
        Some(t) if t.title.len() > 0 => if fits_big(t.title.len(), width, height) {
            TrackPane::Big { top_pad: top_pad(height as int, 7) as u16 }
        } else {
            let lines: int = if album_line(t).len() > 0 {
                3
            } else {
                2
            };
            TrackPane::Compact { top_pad: top_pad(height as int, lines) as u16, lines: lines as u16 }
        },
        _ => TrackPane::Empty { top_pad: top_pad(height as int, 3) as u16 },
    }
}

/// `height - content` when positive, halved.
fn centering_pad(height: u16, content: u16) -> (r: u16)
    ensures
        r == top_pad(height as int, content as int),
{
    let free = if height > content {
        height - content
    } else {
        0
    };
    free / 2
}

/// The album title of `track`, or an empty string.
pub fn album_title(track: &Track) -> (r: String)
    ensures
        r@ == album_line(track@),
{
    match &track.album {
        Some(a) => a.title.clone(),
        None => String::new(),
    }
}

/// The layout of the pane showing `snapshot` in `width` by `height`
/// cells.
pub fn track_pane(snapshot: &PlayerSnapshot, width: u16, height: u16) -> (r: TrackPane)
    ensures
        r == spec_track_pane(snapshot@, width, height),
{
    match &snapshot.track {
        Some(t) => {
            let n = t.title.as_str().unicode_len();
            if n == 0 {
                return TrackPane::Empty { top_pad: centering_pad(height, EMPTY_CONTENT_H) };
            }
            let chars: u16 = if n > 65535 {
                65535
            } else {
                n as u16
            };
            let big_w: u16 = if chars > 16383 {
                65535
            } else {
                chars * BIG_GLYPH_W
            };
            let need: u16 = if big_w > 65533 {
                65535
            } else {
                big_w + 2
            };
            if width >= need && height >= 8 {
                TrackPane::Big { top_pad: centering_pad(height, BIG_CONTENT_H) }
            } else {
                let lines: u16 = match &t.album {
                    Some(a) => if a.title.as_str().unicode_len() > 0 {
                        3
                    } else {
                        2
                    },
                    None => 2,
                };
                TrackPane::Compact { top_pad: centering_pad(height, lines), lines }
            }
        },
        None => TrackPane::Empty { top_pad: centering_pad(height, EMPTY_CONTENT_H) },
    }
}

/// The text lines of a titled track: its title, its artists joined by
/// `, `, and its album title when there is one.
pub open spec fn track_text(t: TrackView) -> Seq<Seq<char>> {
    let base = seq![t.title, join(t.artists, ", "@)];
    if album_line(t).len() > 0 {
        base.push(album_line(t))
    } else {
        base
    }
}

/// The message of the pane when nothing is playing.
pub open spec fn empty_text() -> Seq<Seq<char>> {
    seq!["No track playing."@, Seq::<char>::empty(), "Start something in your player."@]
}

/// The text lines the pane shows for `player` in `width` by `height`
/// cells: the track's lines in both the large and the compact layout,
/// else the message.
pub open spec fn spec_pane_text(player: SnapshotView, width: u16, height: u16) -> Seq<Seq<char>> {
    match spec_track_pane(player, width, height) {
        TrackPane::Empty { .. } => empty_text(),
        _ => track_text(player.track.unwrap()),
    }
}

/// The text lines the pane shows for `snapshot` in `width` by `height`
/// cells, top to bottom.
pub fn pane_text(snapshot: &PlayerSnapshot, width: u16, height: u16) -> (r: Vec<String>)
    ensures
        strings_view(r@) == spec_pane_text(snapshot@, width, height),
{
    let layout = track_pane(snapshot, width, height);
    let mut out: Vec<String> = Vec::new();
    match (layout, &snapshot.track) {
        (TrackPane::Empty { .. }, _) | (_, None) => {
            out.push(String::from_str("No track playing."));
            out.push(String::new());
            out.push(String::from_str("Start something in your player."));
            proof {
                reveal_strlit("No track playing.");
                reveal_strlit("Start something in your player.");
            }
            assert(strings_view(out@) =~= empty_text());
        },
        (_, Some(t)) => {
            out.push(t.title.clone());
            out.push(t.artists_joined());
            let album = album_title(t);
            if album.as_str().unicode_len() > 0 {
                out.push(album);
            }
            proof {
                reveal_strlit(", ");
            }
            assert(strings_view(out@) =~= track_text(t@));
        },
    }
    out
}

/// Whenever a track with a title is playing, its title appears as text,
/// first among the pane's lines, whichever layout the pane takes.
pub proof fn law_title_shown_as_text(player: SnapshotView, width: u16, height: u16)
    requires
        player.track matches Some(t) && t.title.len() > 0,
    ensures
        spec_pane_text(player, width, height).len() >= 2,
        spec_pane_text(player, width, height)[0] == player.track.unwrap().title,
{
}

} // verus!
