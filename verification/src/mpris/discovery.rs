//! Choosing an MPRIS player among the names on the session bus.

use vstd::prelude::*;

use crate::common::error::PlayerError;
use crate::text::{chars_of, chars_start_with, contains_chars, contains_seq, lowercase, to_lowercase};

verus! {

/// Prefix of every MPRIS well-known bus name.
pub open spec fn mpris_prefix() -> Seq<char> {
    "org.mpris.MediaPlayer2."@
}

/// Whether `name` is an MPRIS bus name.
pub open spec fn is_mpris_name(name: Seq<char>) -> bool {
    name.len() >= mpris_prefix().len() && name.subrange(0, mpris_prefix().len() as int)
        == mpris_prefix()
}

/// The MPRIS names among `names`, in order.
pub open spec fn mpris_names(names: Seq<Seq<char>>) -> Seq<Seq<char>>
    decreases names.len(),
{
    if names.len() == 0 {
        Seq::empty()
    } else {
        let init = mpris_names(names.drop_last());
        if is_mpris_name(names.last()) {
            init.push(names.last())
        } else {
            init
        }
    }
}

/// Names taken by their views.
pub open spec fn names_view(names: Seq<String>) -> Seq<Seq<char>> {
    names.map_values(|n: String| n@)
}

/// Keep the bus names that implement MPRIS, in order.
pub fn filter_mpris_names(names: Vec<String>) -> (r: Vec<String>)
    ensures
        names_view(r@) == mpris_names(names_view(names@)),
{
    let ghost nv = names_view(names@);
    let mut out: Vec<String> = Vec::new();
    let n = names.len();
    let mut i: usize = 0;
    while i < n
        invariant
            n == names@.len(),
            nv == names_view(names@),
            i <= n,
            names_view(out@) == mpris_names(nv.take(i as int)),
        decreases n - i,
    {
        let v = chars_of(names[i].as_str());
        assert(v@.subrange(0, v@.len() as int) =~= v@);
        assert(nv.take(i + 1).drop_last() =~= nv.take(i as int));
        assert(nv.take(i + 1).last() == names@[i as int]@);
        let keep = chars_start_with(v.as_slice(), 0, v.len(), "org.mpris.MediaPlayer2.");
        if keep {
            let ghost before = out@;
            out.push(names[i].clone());
            assert(names_view(out@) =~= names_view(before).push(names@[i as int]@));
        }
        i = i + 1;
    }
    assert(nv.take(n as int) =~= nv);
    out
}

/// Index of the first of `hays` that contains `needle`.
pub open spec fn first_containing(hays: Seq<Seq<char>>, needle: Seq<char>) -> Option<int>
    decreases hays.len(),
{
    if hays.len() == 0 {
        None
    } else {
        match first_containing(hays.drop_last(), needle) {
            Some(i) => Some(i),
            None => if contains_seq(hays.last(), needle) {
                Some(hays.len() - 1)
            } else {
                None
            },
        }
    }
}

/// Which of the already lowercased `lowered` names is chosen: the first
/// that contains the lowercased preference `needle`, else the first name,
/// else none.
pub open spec fn spec_select_lowered(lowered: Seq<Seq<char>>, needle: Option<Seq<char>>) -> Option<
    int,
> {
    let by_pref = match needle {
        Some(p) => first_containing(lowered, p),
        None => None,
    };
    match by_pref {
        Some(i) => Some(i),
        None => if lowered.len() > 0 {
            Some(0)
        } else {
            None
        },
    }
}

/// Which name is chosen: the first whose lowercase form contains the
/// lowercase preference, else the first name, else none.
pub open spec fn spec_select(names: Seq<Seq<char>>, preferred: Option<Seq<char>>) -> Option<int> {
    spec_select_lowered(
        names.map_values(|n: Seq<char>| lowercase(n)),
        match preferred {
            Some(p) => Some(lowercase(p)),
            None => None,
        },
    )
}

/// Index of the chosen name among names that are already lowercased, for
/// a preference that is already lowercased.
pub fn select_lowered(lowered: &[String], needle: Option<&str>) -> (r: Option<usize>)
    ensures
        r matches Some(i) ==> spec_select_lowered(names_view(lowered@), opt_view(needle)) == Some(
            i as int,
        ),
        r is None ==> spec_select_lowered(names_view(lowered@), opt_view(needle)) is None,
{
    let ghost lv = names_view(lowered@);
    let n = lowered.len();
    if let Some(pref) = needle {
        let nd = chars_of(pref);
        let mut i: usize = 0;
        while i < n
            invariant
                n == lowered@.len(),
                lv == names_view(lowered@),
                nd@ == pref@,
                needle == Some(pref),
                i <= n,
                first_containing(lv.take(i as int), nd@) is None,
            decreases n - i,
        {
            let hay = chars_of(lowered[i].as_str());
            assert(lv[i as int] == hay@);
            assert(lv.take(i + 1).drop_last() =~= lv.take(i as int));
            assert(lv.take(i + 1).last() == lv[i as int]);
            if contains_chars(hay.as_slice(), nd.as_slice()) {
                assert(first_containing(lv.take(i + 1), nd@) == Some(i as int));
                proof { lemma_first_containing_prefix(lv, nd@, i + 1); }
                return Some(i);
            }
            i = i + 1;
        }
        assert(lv.take(n as int) =~= lv);
    }
    if n > 0 {
        Some(0)
    } else {
        None
    }
}

/// Index of the best candidate among `names`, honoring an optional
/// case-insensitive substring preference.
pub fn select_player_index(names: &[String], preferred: Option<&str>) -> (r: Option<usize>)
    ensures
        r matches Some(i) ==> spec_select(names_view(names@), opt_view(preferred)) == Some(
            i as int,
        ),
        r is None ==> spec_select(names_view(names@), opt_view(preferred)) is None,
{
    let ghost nv = names_view(names@);
    let n = names.len();
    let mut lowered: Vec<String> = Vec::new();
    let mut i: usize = 0;
    while i < n
        invariant
            n == names@.len(),
            nv == names_view(names@),
            i <= n,
            lowered@.len() == i,
            names_view(lowered@) == nv.take(i as int).map_values(|m: Seq<char>| lowercase(m)),
        decreases n - i,
    {
        let ghost before = lowered@;
        let low = to_lowercase(names[i].as_str());
        assert(low@ == lowercase(nv[i as int]));
        lowered.push(low);
        assert forall|j: int| 0 <= j < i + 1 implies #[trigger] names_view(lowered@)[j] == nv.take(
            i + 1,
        ).map_values(|m: Seq<char>| lowercase(m))[j] by {
            if j < i {
                assert(lowered@[j] == before[j]);
                assert(names_view(before)[j] == nv.take(i as int).map_values(
                    |m: Seq<char>| lowercase(m),
                )[j]);
            }
        }
        assert(names_view(lowered@) =~= nv.take(i + 1).map_values(|m: Seq<char>| lowercase(m)));
        i = i + 1;
    }
    assert(nv.take(n as int) =~= nv);
    match preferred {
        Some(p) => {
            let lp = to_lowercase(p);
            assert(lp@ == lowercase(p@));
            select_lowered(lowered.as_slice(), Some(lp.as_str()))
        },
        None => select_lowered(lowered.as_slice(), None),
    }
}

/// A match found in a prefix is the match of the whole list.
pub proof fn lemma_first_containing_prefix(hays: Seq<Seq<char>>, needle: Seq<char>, i: int)
    requires
        0 <= i <= hays.len(),
        first_containing(hays.take(i), needle) is Some,
    ensures
        first_containing(hays, needle) == first_containing(hays.take(i), needle),
    decreases hays.len() - i,
{
    if i < hays.len() {
        assert(hays.take(i + 1).drop_last() =~= hays.take(i));
        lemma_first_containing_prefix(hays, needle, i + 1);
    } else {
        assert(hays.take(i) =~= hays);
    }
}

/// `o` with the string taken by its view.
pub open spec fn opt_view(o: Option<&str>) -> Option<Seq<char>> {
    match o {
        Some(s) => Some(s@),
        None => None,
    }
}

/// Pick the best candidate from a list, honoring an optional
/// case-insensitive substring preference (e.g. `"spotify"`).
pub fn select_player<'a>(names: &'a [String], preferred: Option<&str>) -> (r: Option<&'a str>)
    ensures
        r matches Some(s) ==> (spec_select(names_view(names@), opt_view(preferred)) matches Some(
            i,
        ) && 0 <= i < names@.len() && s@ == names@[i]@),
        r is None ==> spec_select(names_view(names@), opt_view(preferred)) is None,
{
    match select_player_index(names, preferred) {
        Some(i) => {
            proof { lemma_select_in_range(names_view(names@), opt_view(preferred)); }
            Some(names[i].as_str())
        },
        None => None,
    }
}

/// A chosen index is an index of the list.
pub proof fn lemma_select_in_range(names: Seq<Seq<char>>, preferred: Option<Seq<char>>)
    ensures
        spec_select(names, preferred) matches Some(i) ==> 0 <= i < names.len(),
{
    let lowered = names.map_values(|n: Seq<char>| lowercase(n));
    if let Some(p) = preferred {
        lemma_first_containing_range(lowered, lowercase(p));
    }
}

/// A match is an index of the list.
pub proof fn lemma_first_containing_range(hays: Seq<Seq<char>>, needle: Seq<char>)
    ensures
        first_containing(hays, needle) matches Some(i) ==> 0 <= i < hays.len(),
    decreases hays.len(),
{
    if hays.len() > 0 {
        lemma_first_containing_range(hays.drop_last(), needle);
    }
}

/// The bus name to connect to among `names`: the one [`select_player`]
/// picks, or [`PlayerError::NoPlayerAvailable`] when the list is empty.
pub fn choose_player(names: &[String], preferred: Option<&str>) -> (r: Result<String, PlayerError>)
    ensures
        r matches Ok(s) ==> (spec_select(names_view(names@), opt_view(preferred)) matches Some(i)
            && 0 <= i < names@.len() && s@ == names@[i]@),
        r is Err ==> spec_select(names_view(names@), opt_view(preferred)) is None && r matches Err(
            PlayerError::NoPlayerAvailable,
        ),
        r is Ok <==> names@.len() > 0,
{
    proof {
        lemma_select_nonempty(names_view(names@), opt_view(preferred));
    }
    match select_player(names, preferred) {
        Some(s) => Ok(String::from_str(s)),
        None => Err(PlayerError::NoPlayerAvailable),
    }
}

/// Some name is chosen exactly when there is one to choose.
pub proof fn lemma_select_nonempty(names: Seq<Seq<char>>, preferred: Option<Seq<char>>)
    ensures
        spec_select(names, preferred) is Some <==> names.len() > 0,
{
    lemma_select_in_range(names, preferred);
}

} // verus!
