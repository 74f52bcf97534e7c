//! Translation of MPRIS metadata into [`Track`] values.
//!
//! The program converts the DBus dictionary into [`MetaValue`]s, one per
//! key; the functions here read them. Several players bend the MPRIS spec
//! (Spotify ships `mpris:trackid` as a plain string rather than an object
//! path), so every reader accepts the forms seen in practice.

use vstd::prelude::*;

use crate::domain::{Album, Artist, Duration, PlaybackStatus, Track};
use crate::domain::track::{names_of, AlbumView, TrackView};
use crate::text::{chars_eq_str, chars_of};

verus! {

/// A metadata value as DBus carries it, reduced to what the readers use.
#[derive(Debug)]
pub enum MetaValue {
    Str(String),
    ObjectPath(String),
    /// A signature, in its textual form.
    Signature(String),
    I64(i64),
    I32(i32),
    U64(u64),
    U32(u32),
    Array(Vec<MetaValue>),
    /// Any other kind of value.
    Other,
}

/// A metadata dictionary: key and value pairs with distinct keys.
pub type Metadata = Vec<(String, MetaValue)>;

/// The value stored under `key`: the first entry with that key.
pub open spec fn meta_get(m: Seq<(String, MetaValue)>, key: Seq<char>) -> Option<MetaValue>
    decreases m.len(),
{
    if m.len() == 0 {
        None
    } else if m[0].0@ == key {
        Some(m[0].1)
    } else {
        meta_get(m.drop_first(), key)
    }
}

/// The string a value holds, if it is a string, an object path or a
/// signature.
pub open spec fn value_string(v: MetaValue) -> Option<Seq<char>> {
    match v {
        MetaValue::Str(s) => Some(s@),
        MetaValue::ObjectPath(s) => Some(s@),
        MetaValue::Signature(s) => Some(s@),
        _ => None,
    }
}

/// The integer a value holds, if it is one that fits in `i64`.
pub open spec fn value_i64(v: MetaValue) -> Option<int> {
    match v {
        MetaValue::I64(n) => Some(n as int),
        MetaValue::I32(n) => Some(n as int),
        MetaValue::U64(n) => if n <= i64::MAX {
            Some(n as int)
        } else {
            None
        },
        MetaValue::U32(n) => Some(n as int),
        _ => None,
    }
}

/// The non-empty strings among array elements, in order.
pub open spec fn nonempty_strings(a: Seq<MetaValue>) -> Seq<Seq<char>>
    decreases a.len(),
{
    if a.len() == 0 {
        Seq::empty()
    } else {
        let init = nonempty_strings(a.drop_last());
        match value_string(a.last()) {
            Some(s) => if s.len() > 0 {
                init.push(s)
            } else {
                init
            },
            None => init,
        }
    }
}

/// The strings a value holds as a list: the non-empty string elements of
/// an array, or the single string of a string value.
pub open spec fn value_strings(v: MetaValue) -> Seq<Seq<char>> {
    match v {
        MetaValue::Array(a) => nonempty_strings(a@),
        _ => match value_string(v) {
            Some(s) => seq![s],
            None => Seq::empty(),
        },
    }
}

/// The string under `key`.
pub open spec fn get_string_spec(m: Seq<(String, MetaValue)>, key: Seq<char>) -> Option<Seq<char>> {
    match meta_get(m, key) {
        Some(v) => value_string(v),
        None => None,
    }
}

/// The string list under `key`.
pub open spec fn get_strings_spec(m: Seq<(String, MetaValue)>, key: Seq<char>) -> Seq<Seq<char>> {
    match meta_get(m, key) {
        Some(v) => value_strings(v),
        None => Seq::empty(),
    }
}

/// The integer under `key`.
pub open spec fn get_i64_spec(m: Seq<(String, MetaValue)>, key: Seq<char>) -> Option<int> {
    match meta_get(m, key) {
        Some(v) => value_i64(v),
        None => None,
    }
}

/// The album: present when `xesam:album` is a non-empty string; its artist
/// is the first album artist, else the first track artist, else empty.
pub open spec fn spec_album(m: Seq<(String, MetaValue)>) -> Option<AlbumView> {
    match get_string_spec(m, "xesam:album"@) {
        Some(title) => if title.len() == 0 {
            None
        } else {
            let album_artists = get_strings_spec(m, "xesam:albumArtist"@);
            let artists = get_strings_spec(m, "xesam:artist"@);
            let artist = if album_artists.len() > 0 {
                album_artists[0]
            } else if artists.len() > 0 {
                artists[0]
            } else {
                Seq::empty()
            };
            Some(AlbumView { title, artist, art_url: get_string_spec(m, "mpris:artUrl"@) })
        },
        None => None,
    }
}

/// The track a metadata dictionary describes: title (empty when absent),
/// artists, album, a positive `mpris:length` in microseconds, track id and
/// URL.
pub open spec fn spec_track(m: Seq<(String, MetaValue)>) -> TrackView {
    TrackView {
        title: match get_string_spec(m, "xesam:title"@) {
            Some(t) => t,
            None => Seq::empty(),
        },
        artists: get_strings_spec(m, "xesam:artist"@),
        album: spec_album(m),
        length: match get_i64_spec(m, "mpris:length"@) {
            Some(us) => if us > 0 {
                Some(Duration::spec_from_micros(us as nat))
            } else {
                None
            },
            None => None,
        },
        track_id: get_string_spec(m, "mpris:trackid"@),
        url: get_string_spec(m, "xesam:url"@),
    }
}

/// Index of the entry stored under `key`.
fn find_key(m: &[(String, MetaValue)], key: &str) -> (r: Option<usize>)
    ensures
        r matches Some(i) ==> i < m@.len() && meta_get(m@, key@) == Some(m@[i as int].1),
        r is None ==> meta_get(m@, key@) is None,
{
    let n = m.len();
    let mut i: usize = 0;
    assert(m@.skip(0) =~= m@);
    while i < n
        invariant
            n == m@.len(),
            i <= n,
            meta_get(m@, key@) == meta_get(m@.skip(i as int), key@),
        decreases n - i,
    {
        let k = chars_of(m[i].0.as_str());
        assert(k@.subrange(0, k@.len() as int) =~= k@);
        assert(m@.skip(i as int)[0] == m@[i as int]);
        if chars_eq_str(k.as_slice(), 0, k.len(), key) {
            return Some(i);
        }
        assert(m@.skip(i as int).drop_first() =~= m@.skip(i + 1));
        i = i + 1;
    }
    None
}

fn string_from_value(v: &MetaValue) -> (r: Option<String>)
    ensures
        r matches Some(s) ==> value_string(*v) == Some(s@),
        r is None ==> value_string(*v) is None,
{
    match v {
        MetaValue::Str(s) => Some(s.clone()),
        MetaValue::ObjectPath(s) => Some(s.clone()),
        MetaValue::Signature(s) => Some(s.clone()),
        _ => None,
    }
}

fn get_string(m: &[(String, MetaValue)], key: &str) -> (r: Option<String>)
    ensures
        r matches Some(s) ==> get_string_spec(m@, key@) == Some(s@),
        r is None ==> get_string_spec(m@, key@) is None,
{
    match find_key(m, key) {
        Some(i) => string_from_value(&m[i].1),
        None => None,
    }
}

fn get_i64(m: &[(String, MetaValue)], key: &str) -> (r: Option<i64>)
    ensures
        r matches Some(n) ==> get_i64_spec(m@, key@) == Some(n as int),
        r is None ==> get_i64_spec(m@, key@) is None,
{
    match find_key(m, key) {
        Some(i) => match &m[i].1 {
            MetaValue::I64(n) => Some(*n),
            MetaValue::I32(n) => Some(*n as i64),
            MetaValue::U64(n) => if *n <= 9223372036854775807u64 {
                Some(*n as i64)
            } else {
                None
            },
            MetaValue::U32(n) => Some(*n as i64),
            _ => None,
        },
        None => None,
    }
}

/// `v` with each string taken by its view.
pub open spec fn strings_view(v: Seq<String>) -> Seq<Seq<char>> {
    v.map_values(|s: String| s@)
}

fn get_string_array(m: &[(String, MetaValue)], key: &str) -> (r: Vec<String>)
    ensures
        strings_view(r@) == get_strings_spec(m@, key@),
{
    let mut out: Vec<String> = Vec::new();
    match find_key(m, key) {
        Some(i) => match &m[i].1 {
            MetaValue::Array(arr) => {
                let n = arr.len();
                let mut j: usize = 0;
                while j < n
                    invariant
                        n == arr@.len(),
                        j <= n,
                        strings_view(out@) == nonempty_strings(arr@.take(j as int)),
                    decreases n - j,
                {
                    assert(arr@.take(j + 1).drop_last() =~= arr@.take(j as int));
                    assert(arr@.take(j + 1).last() == arr@[j as int]);
                    match string_from_value(&arr[j]) {
                        Some(s) => {
                            if s.as_str().unicode_len() > 0 {
                                let ghost before = out@;
                                out.push(s);
                                assert(strings_view(out@) =~= strings_view(before).push(
                                    out@.last()@,
                                ));
                            }
                        },
                        None => {},
                    }
                    j = j + 1;
                }
                assert(arr@.take(n as int) =~= arr@);
            },
            other => {
                match string_from_value(other) {
                    Some(s) => {
                        out.push(s);
                        assert(strings_view(out@) =~= seq![out@[0]@]);
                    },
                    None => {
                        assert(strings_view(out@) =~= Seq::<Seq<char>>::empty());
                    },
                }
            },
        },
        None => {
            assert(strings_view(out@) =~= Seq::<Seq<char>>::empty());
        },
    }
    out
}

fn build_album(m: &[(String, MetaValue)]) -> (r: Option<Album>)
    ensures
        r matches Some(a) ==> spec_album(m@) == Some(a@),
        r is None ==> spec_album(m@) is None,
{
    let title = match get_string(m, "xesam:album") {
        Some(t) => t,
        None => return None,
    };
    if title.as_str().unicode_len() == 0 {
        return None;
    }
    let album_artists = get_string_array(m, "xesam:albumArtist");
    let artist = if album_artists.len() > 0 {
        assert(strings_view(album_artists@)[0] == album_artists@[0]@);
        album_artists[0].clone()
    } else {
        let artists = get_string_array(m, "xesam:artist");
        if artists.len() > 0 {
            assert(strings_view(artists@)[0] == artists@[0]@);
            artists[0].clone()
        } else {
            String::new()
        }
    };
    let art_url = get_string(m, "mpris:artUrl");
    let a = Album { title, artist, art_url };
    assert(a@.art_url == get_string_spec(m@, "mpris:artUrl"@));
    Some(a)
}

/// Parse a full MPRIS `Metadata` dictionary into a [`Track`].
pub fn parse_metadata(m: &[(String, MetaValue)]) -> (r: Track)
    ensures
        r@ == spec_track(m@),
{
    let title = match get_string(m, "xesam:title") {
        Some(t) => t,
        None => String::new(),
    };
    let names = get_string_array(m, "xesam:artist");
    let mut artists: Vec<Artist> = Vec::new();
    let n = names.len();
    let mut i: usize = 0;
    while i < n
        invariant
            n == names@.len(),
            i <= n,
            artists@.len() == i,
            names_of(artists@) == strings_view(names@).take(i as int),
        decreases n - i,
    {
        let ghost before = artists@;
        let name = names[i].clone();
        assert(name@ == names@[i as int]@);
        artists.push(Artist { name });
        assert(artists@ == before.push(Artist { name: names@[i as int] }));
        assert forall|j: int| 0 <= j < i + 1 implies #[trigger] names_of(artists@)[j]
            == strings_view(names@).take(i + 1)[j] by {
            if j < i {
                assert(artists@[j] == before[j]);
                assert(names_of(before)[j] == strings_view(names@).take(i as int)[j]);
            }
        }
        assert(names_of(artists@) =~= strings_view(names@).take(i + 1));
        i = i + 1;
    }
    assert(strings_view(names@).take(n as int) =~= strings_view(names@));
    let length = match get_i64(m, "mpris:length") {
        Some(us) => if us > 0 {
            Some(Duration::from_micros(us as u64))
        } else {
            None
        },
        None => None,
    };
    let track_id = get_string(m, "mpris:trackid");
    let url = get_string(m, "xesam:url");
    let album = build_album(m);
    let t = Track { title, artists, album, length, track_id, url };
    assert(t@ =~= spec_track(m@));
    t
}

/// What an MPRIS `PlaybackStatus` string means.
pub open spec fn spec_status(raw: Seq<char>) -> PlaybackStatus {
    if raw == "Playing"@ {
        PlaybackStatus::Playing
    } else if raw == "Paused"@ {
        PlaybackStatus::Paused
    } else {
        PlaybackStatus::Stopped
    }
}

/// Convert an MPRIS `PlaybackStatus` string into the domain enum; anything
/// unknown counts as stopped.
pub fn parse_status(raw: &str) -> (r: PlaybackStatus)
    ensures
        r == spec_status(raw@),
{
    let v = chars_of(raw);
    assert(v@.subrange(0, v@.len() as int) =~= v@);
    if chars_eq_str(v.as_slice(), 0, v.len(), "Playing") {
        PlaybackStatus::Playing
    } else if chars_eq_str(v.as_slice(), 0, v.len(), "Paused") {
        PlaybackStatus::Paused
    } else {
        PlaybackStatus::Stopped
    }
}

/// The album's artist comes from `xesam:albumArtist` first: when the
/// album is present and that entry holds at least one non-empty string, the
/// album's artist is the first of them, whatever `xesam:artist` holds.
pub proof fn law_album_artist_prefers_album_artists(
    m: Seq<(String, MetaValue)>,
    v: MetaValue,
)
    requires
        spec_track(m).album is Some,
        meta_get(m, "xesam:albumArtist"@) == Some(v),
        value_strings(v).len() > 0,
    ensures
        spec_track(m).album.unwrap().artist == value_strings(v)[0],
{
}

/// Without album artists, the album's artist is the track's first artist,
/// and empty when the track has none either.
pub proof fn law_album_artist_falls_back_to_track_artist(m: Seq<(String, MetaValue)>)
    requires
        spec_track(m).album is Some,
        forall|v: MetaValue| meta_get(m, "xesam:albumArtist"@) == Some(v) ==> value_strings(v).len()
            == 0,
    ensures
        spec_track(m).artists.len() > 0 ==> spec_track(m).album.unwrap().artist
            == spec_track(m).artists[0],
        spec_track(m).artists.len() == 0 ==> spec_track(m).album.unwrap().artist.len() == 0,
{
}

/// The album is there exactly when `xesam:album` holds a non-empty string,
/// and its title is that string.
pub proof fn law_album_title(m: Seq<(String, MetaValue)>)
    ensures
        spec_track(m).album is Some <==> (exists|t: Seq<char>| get_string_spec(m, "xesam:album"@)
            == Some(t) && t.len() > 0),
        spec_track(m).album is Some ==> get_string_spec(m, "xesam:album"@) == Some(
            spec_track(m).album.unwrap().title,
        ),
{
    if let Some(t) = get_string_spec(m, "xesam:album"@) {
        if t.len() > 0 {
            assert(get_string_spec(m, "xesam:album"@) == Some(t) && t.len() > 0);
        }
    }
}

/// The track's length is `mpris:length` read as microseconds: a positive
/// value of `us` gives a length of exactly `us` microseconds, and anything
/// else (absent, not an integer, zero or negative) gives no length.
pub proof fn law_track_length_in_microseconds(m: Seq<(String, MetaValue)>)
    ensures
        get_i64_spec(m, "mpris:length"@) matches Some(us) ==> (us > 0 ==> (spec_track(
            m,
        ).length matches Some(d) && d.spec_total_nanos() == us * 1000)),
        get_i64_spec(m, "mpris:length"@) matches Some(us) ==> (us <= 0 ==> spec_track(m).length is None),
        get_i64_spec(m, "mpris:length"@) is None ==> spec_track(m).length is None,
{
    if let Some(us) = get_i64_spec(m, "mpris:length"@) {
        if us > 0 {
            assert(us <= i64::MAX);
            let u = us as u64;
            Duration::lemma_from_micros(u);
            let d = Duration::spec_from_micros(u as nat);
            assert((u / 1_000_000) * 1_000_000_000 + (u % 1_000_000) * 1000 == u * 1000)
                by (nonlinear_arith);
            assert(d.spec_total_nanos() == us * 1000);
        }
    }
}

} // verus!
