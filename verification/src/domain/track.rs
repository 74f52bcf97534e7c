//! Metadata models for the currently playing media.

use vstd::prelude::*;

use super::duration::Duration;
use crate::text::push_str;

verus! {

/// An album an artist released.
#[derive(Debug, PartialEq, Eq, Hash)]
pub struct Album {
    pub title: String,
    pub artist: String,
    pub art_url: Option<String>,
}

/// A single contributing artist.
#[derive(Debug, PartialEq, Eq, Hash)]
pub struct Artist {
    pub name: String,
}

/// A single track currently exposed by a media player.
#[derive(Debug, PartialEq, Eq)]
pub struct Track {
    pub title: String,
    pub artists: Vec<Artist>,
    pub album: Option<Album>,
    pub length: Option<Duration>,
    /// MPRIS `mpris:trackid`, when supplied.
    pub track_id: Option<String>,
    /// `xesam:url` when supplied (e.g. `spotify:track:...`).
    pub url: Option<String>,
}

/// `o` with the string taken by its view.
pub open spec fn opt_str(o: Option<String>) -> Option<Seq<char>> {
    match o {
        Some(s) => Some(s@),
        None => None,
    }
}

/// The content of an [`Album`], strings taken by their views.
#[verifier::ext_equal]
pub struct AlbumView {
    pub title: Seq<char>,
    pub artist: Seq<char>,
    pub art_url: Option<Seq<char>>,
}

impl View for Album {
    type V = AlbumView;

    open spec fn view(&self) -> AlbumView {
        AlbumView { title: self.title@, artist: self.artist@, art_url: opt_str(self.art_url) }
    }
}

/// `a` with the album taken by its view.
pub open spec fn opt_album(a: Option<Album>) -> Option<AlbumView> {
    match a {
        Some(a) => Some(a@),
        None => None,
    }
}

/// The names of `artists`, in order.
pub open spec fn names_of(artists: Seq<Artist>) -> Seq<Seq<char>> {
    artists.map_values(|a: Artist| a.name@)
}

/// The content of a [`Track`]: strings by their views, artists by their
/// names.
#[verifier::ext_equal]
pub struct TrackView {
    pub title: Seq<char>,
    pub artists: Seq<Seq<char>>,
    pub album: Option<AlbumView>,
    pub length: Option<Duration>,
    pub track_id: Option<Seq<char>>,
    pub url: Option<Seq<char>>,
}

impl View for Track {
    type V = TrackView;

    open spec fn view(&self) -> TrackView {
        TrackView {
            title: self.title@,
            artists: names_of(self.artists@),
            album: opt_album(self.album),
            length: self.length,
            track_id: opt_str(self.track_id),
            url: opt_str(self.url),
        }
    }
}

impl Clone for Artist {
    fn clone(&self) -> (r: Self)
        ensures
            r == *self,
    {
        Artist { name: self.name.clone() }
    }
}

impl Clone for Album {
    fn clone(&self) -> (r: Self)
        ensures
            r == *self,
    {
        Album { title: self.title.clone(), artist: self.artist.clone(), art_url: self.art_url.clone() }
    }
}

impl Clone for Track {
    fn clone(&self) -> (r: Self)
        ensures
            r@ == self@,
    {
        let artists = self.artists.clone();
        assert(artists@ =~= self.artists@);
        let album = self.album.clone();
        assert(album == self.album);
        let track_id = self.track_id.clone();
        assert(track_id == self.track_id);
        let url = self.url.clone();
        assert(url == self.url);
        let r = Track { title: self.title.clone(), artists, album, length: self.length, track_id, url };
        assert(r@ =~= self@);
        r
    }
}

impl Default for Album {
    fn default() -> (r: Self)
        ensures
            r.title@.len() == 0,
            r.artist@.len() == 0,
            r.art_url is None,
    {
        Album { title: String::new(), artist: String::new(), art_url: None }
    }
}

impl Default for Track {
    fn default() -> (r: Self)
        ensures
            r.title@.len() == 0,
            r.artists@.len() == 0,
            r.album is None,
            r.length is None,
            r.track_id is None,
            r.url is None,
    {
        Track {
            title: String::new(),
            artists: Vec::new(),
            album: None,
            length: None,
            track_id: None,
            url: None,
        }
    }
}

/// `parts` joined with `sep` between consecutive parts.
pub open spec fn join(parts: Seq<Seq<char>>, sep: Seq<char>) -> Seq<char>
    decreases parts.len(),
{
    if parts.len() == 0 {
        Seq::empty()
    } else if parts.len() == 1 {
        parts[0]
    } else {
        join(parts.drop_last(), sep) + sep + parts.last()
    }
}

impl Track {
    /// Names of the artists, in order.
    pub open spec fn artist_names(self) -> Seq<Seq<char>> {
        self@.artists
    }

    /// Human-readable single-line artist list: the names joined by `", "`.
    pub fn artists_joined(&self) -> (r: String)
        ensures
            r@ == join(self.artist_names(), ", "@),
    {
        let mut out = String::new();
        let n = self.artists.len();
        let mut i: usize = 0;
        while i < n
            invariant
                n == self.artists@.len(),
                i <= n,
                out@ == join(self.artist_names().take(i as int), ", "@),
            decreases n - i,
        {
            if i > 0 {
                push_str(&mut out, ", ");
            }
            push_str(&mut out, self.artists[i].name.as_str());
            assert(self.artist_names().take(i + 1).drop_last() =~= self.artist_names().take(
                i as int,
            ));
            i = i + 1;
        }
        assert(self.artist_names().take(n as int) =~= self.artist_names());
        out
    }
}

} // verus!
