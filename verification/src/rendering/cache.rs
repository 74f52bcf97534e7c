//! In-memory album-art cache, keyed by the original art URL.
//!
//! The cache holds at most [`ART_CACHE_CAPACITY`] images and evicts the
//! least recently used one: a get or a put makes its URL the most recently
//! used, and a put that would go over the capacity drops the entry used
//! longest ago.

use vstd::prelude::*;

verus! {

/// How many images the cache holds at most.
pub const ART_CACHE_CAPACITY: usize = 32;

/// Entries of the cache taken by their views: URL and image, least
/// recently used first.
pub open spec fn entries_view<V>(es: Seq<(String, V)>) -> Seq<(Seq<char>, V)> {
    es.map_values(|e: (String, V)| (e.0@, e.1))
}

/// Whether no two entries share a URL.
pub open spec fn distinct_keys<V>(es: Seq<(Seq<char>, V)>) -> bool {
    forall|i: int, j: int|
        0 <= i < es.len() && 0 <= j < es.len() && i != j ==> #[trigger] es[i].0
            != #[trigger] es[j].0
}

/// Where the entry for URL `k` stands, if there is one.
pub open spec fn key_index<V>(es: Seq<(Seq<char>, V)>, k: Seq<char>) -> Option<int> {
    if exists|i: int| 0 <= i < es.len() && #[trigger] es[i].0 == k {
        Some(choose|i: int| 0 <= i < es.len() && #[trigger] es[i].0 == k)
    } else {
        None
    }
}

/// The image cached for `k`, if any.
pub open spec fn cached<V>(es: Seq<(Seq<char>, V)>, k: Seq<char>) -> Option<V> {
    match key_index(es, k) {
        Some(i) => Some(es[i].1),
        None => None,
    }
}

/// The entries after a use of `k`: its entry, if any, becomes the most
/// recently used.
pub open spec fn lru_touch<V>(es: Seq<(Seq<char>, V)>, k: Seq<char>) -> Seq<(Seq<char>, V)> {
    match key_index(es, k) {
        Some(i) => es.remove(i).push(es[i]),
        None => es,
    }
}

/// The entries after a put of `v` for `k`: an entry for `k` is replaced by
/// the new one, which becomes the most recently used; when that makes more
/// than [`ART_CACHE_CAPACITY`] entries, the least recently used one leaves.
pub open spec fn lru_put<V>(es: Seq<(Seq<char>, V)>, k: Seq<char>, v: V) -> Seq<(Seq<char>, V)> {
    let rest = match key_index(es, k) {
        Some(i) => es.remove(i),
        None => es,
    };
    let full = rest.push((k, v));
    if full.len() > ART_CACHE_CAPACITY {
        full.drop_first()
    } else {
        full
    }
}

/// With distinct URLs, an entry for `k` is the one [`key_index`] finds.
pub proof fn lemma_key_index<V>(es: Seq<(Seq<char>, V)>, k: Seq<char>)
    requires
        distinct_keys(es),
    ensures
        key_index(es, k) matches Some(i) ==> 0 <= i < es.len() && es[i].0 == k,
        key_index(es, k) is None ==> forall|j: int| 0 <= j < es.len() ==> #[trigger] es[j].0 != k,
        forall|j: int| 0 <= j < es.len() && #[trigger] es[j].0 == k ==> key_index(es, k) == Some(j),
{
}

/// Removing an entry, adding one with a new URL, and dropping the first
/// keep the URLs distinct.
proof fn lemma_distinct_steps<V>(es: Seq<(Seq<char>, V)>, i: int, e: (Seq<char>, V))
    requires
        distinct_keys(es),
        0 <= i < es.len(),
    ensures
        distinct_keys(es.remove(i)),
        forall|j: int| 0 <= j < es.remove(i).len() ==> #[trigger] es.remove(i)[j].0 != es[i].0,
        distinct_keys(es.drop_first()),
{
    let r = es.remove(i);
    assert forall|a: int, b: int|
        0 <= a < r.len() && 0 <= b < r.len() && a != b implies #[trigger] r[a].0 != #[trigger] r[b].0 by {
        let a2 = if a < i { a } else { a + 1 };
        let b2 = if b < i { b } else { b + 1 };
        assert(r[a] == es[a2]);
        assert(r[b] == es[b2]);
    }
    assert forall|j: int| 0 <= j < r.len() implies #[trigger] r[j].0 != es[i].0 by {
        let j2 = if j < i { j } else { j + 1 };
        assert(r[j] == es[j2]);
    }
    let d = es.drop_first();
    assert forall|a: int, b: int|
        0 <= a < d.len() && 0 <= b < d.len() && a != b implies #[trigger] d[a].0 != #[trigger] d[b].0 by {
        assert(d[a] == es[a + 1]);
        assert(d[b] == es[b + 1]);
    }
}

/// Adding an entry whose URL no entry has keeps the URLs distinct, and so
/// does dropping the first entry afterwards.
proof fn lemma_distinct_push<V>(es: Seq<(Seq<char>, V)>, e: (Seq<char>, V))
    requires
        distinct_keys(es),
        forall|j: int| 0 <= j < es.len() ==> #[trigger] es[j].0 != e.0,
    ensures
        distinct_keys(es.push(e)),
        distinct_keys(es.push(e).drop_first()),
{
    let p = es.push(e);
    assert forall|a: int, b: int|
        0 <= a < p.len() && 0 <= b < p.len() && a != b implies #[trigger] p[a].0 != #[trigger] p[b].0 by {
        if a < es.len() {
            assert(p[a] == es[a]);
        }
        if b < es.len() {
            assert(p[b] == es[b]);
        }
    }
    let d = p.drop_first();
    assert forall|a: int, b: int|
        0 <= a < d.len() && 0 <= b < d.len() && a != b implies #[trigger] d[a].0 != #[trigger] d[b].0 by {
        assert(d[a] == p[a + 1]);
        assert(d[b] == p[b + 1]);
    }
}

/// A use keeps the URLs distinct, the entries as many, and what is cached.
pub proof fn lemma_touch<V>(es: Seq<(Seq<char>, V)>, k: Seq<char>)
    requires
        distinct_keys(es),
    ensures
        distinct_keys(lru_touch(es, k)),
        lru_touch(es, k).len() == es.len(),
{
    lemma_key_index(es, k);
    if let Some(i) = key_index(es, k) {
        lemma_distinct_steps(es, i, es[i]);
        lemma_distinct_push(es.remove(i), es[i]);
    }
}

/// A put keeps the URLs distinct and the cache within its capacity.
pub proof fn lemma_put<V>(es: Seq<(Seq<char>, V)>, k: Seq<char>, v: V)
    requires
        distinct_keys(es),
        es.len() <= ART_CACHE_CAPACITY,
    ensures
        distinct_keys(lru_put(es, k, v)),
        lru_put(es, k, v).len() <= ART_CACHE_CAPACITY,
        lru_put(es, k, v).len() == (if key_index(es, k) is Some || es.len() == ART_CACHE_CAPACITY {
            es.len() as int
        } else {
            es.len() + 1int
        }),
{
    lemma_key_index(es, k);
    let rest = match key_index(es, k) {
        Some(i) => es.remove(i),
        None => es,
    };
    match key_index(es, k) {
        Some(i) => {
            lemma_distinct_steps(es, i, (k, v));
        },
        None => {},
    }
    assert(distinct_keys(rest));
    assert(forall|j: int| 0 <= j < rest.len() ==> #[trigger] rest[j].0 != k);
    lemma_distinct_push(rest, (k, v));
}

/// A cache from art URLs to decoded images of type `V`.
pub struct ArtCache<V> {
    /// Least recently used first.
    entries: Vec<(String, V)>,
}

impl<V> ArtCache<V> {
    #[verifier::type_invariant]
    spec fn well_formed(self) -> bool {
        &&& distinct_keys(entries_view(self.entries@))
        &&& self.entries@.len() <= ART_CACHE_CAPACITY
    }

    /// The entries: URL and image, least recently used first.
    pub closed spec fn spec_entries(&self) -> Seq<(Seq<char>, V)> {
        entries_view(self.entries@)
    }

    /// An empty cache.
    pub fn new() -> (r: Self)
        ensures
            r.spec_entries() == Seq::<(Seq<char>, V)>::empty(),
    {
        let r = ArtCache { entries: Vec::new() };
        assert(r.spec_entries() =~= Seq::<(Seq<char>, V)>::empty());
        r
    }

    /// Index of the entry for `key`, if there is one.
    fn position(&self, key: &String) -> (r: Option<usize>)
        ensures
            r matches Some(i) ==> i < self.entries@.len() && self.spec_entries()[i as int].0 == key@,
            r is None ==> forall|i: int|
                0 <= i < self.spec_entries().len() ==> #[trigger] self.spec_entries()[i].0 != key@,
    {
        let mut i: usize = 0;
        while i < self.entries.len()
            invariant
                i <= self.entries@.len(),
                forall|j: int| 0 <= j < i ==> #[trigger] self.spec_entries()[j].0 != key@,
            decreases self.entries@.len() - i,
        {
            if self.entries[i].0 == *key {
                return Some(i);
            }
            i = i + 1;
        }
        None
    }

    /// The image cached for `url`, if any; a hit makes `url` the most
    /// recently used.
    pub fn get(&mut self, url: &str) -> (r: Option<&V>)
        ensures
            r is Some <==> cached(old(self).spec_entries(), url@) is Some,
            r matches Some(v) ==> cached(old(self).spec_entries(), url@) == Some(*v),
            final(self).spec_entries() == lru_touch(old(self).spec_entries(), url@),
    {
        proof {
            use_type_invariant(&*self);
            lemma_key_index(self.spec_entries(), url@);
            lemma_touch(self.spec_entries(), url@);
        }
        let ghost before = self.spec_entries();
        let key = String::from_str(url);
        match self.position(&key) {
            Some(i) => {
                let mut entries = Vec::new();
                std::mem::swap(&mut entries, &mut self.entries);
                let e = entries.remove(i);
                entries.push(e);
                assert(entries_view(entries@) =~= before.remove(i as int).push(before[i as int]));
                self.entries = entries;
                let last = self.entries.len() - 1;
                Some(&self.entries[last].1)
            },
            None => None,
        }
    }

    /// Cache `image` for `url`: it replaces an image cached for `url` and
    /// becomes the most recently used; beyond the capacity, the least
    /// recently used entry leaves.
    pub fn put(&mut self, url: String, image: V)
        ensures
            final(self).spec_entries() == lru_put(old(self).spec_entries(), url@, image),
            final(self).spec_entries().len() <= ART_CACHE_CAPACITY,
    {
        proof {
            use_type_invariant(&*self);
            lemma_key_index(self.spec_entries(), url@);
            lemma_put(self.spec_entries(), url@, image);
        }
        let ghost before = self.spec_entries();
        let ghost k = url@;
        let found = self.position(&url);
        let mut entries = Vec::new();
        std::mem::swap(&mut entries, &mut self.entries);
        match found {
            Some(i) => {
                entries.remove(i);
                assert(entries_view(entries@) =~= before.remove(i as int));
            },
            None => {},
        }
        entries.push((url, image));
        if entries.len() > ART_CACHE_CAPACITY {
            entries.remove(0);
        }
        assert(entries_view(entries@) =~= lru_put(before, k, image));
        self.entries = entries;
    }

    /// Number of cached images.
    pub fn len(&self) -> (r: usize)
        ensures
            r == self.spec_entries().len(),
    {
        self.entries.len()
    }

    /// Whether nothing is cached.
    pub fn is_empty(&self) -> (r: bool)
        ensures
            r <==> self.spec_entries().len() == 0,
    {
        self.len() == 0
    }
}

/// A get after a put finds the image put, and the cache never holds more
/// than its capacity.
pub proof fn law_get_after_put<V>(es: Seq<(Seq<char>, V)>, k: Seq<char>, v: V)
    requires
        distinct_keys(es),
        es.len() <= ART_CACHE_CAPACITY,
    ensures
        cached(lru_put(es, k, v), k) == Some(v),
        lru_put(es, k, v).len() <= ART_CACHE_CAPACITY,
{
    lemma_put(es, k, v);
    let rest = match key_index(es, k) {
        Some(i) => es.remove(i),
        None => es,
    };
    let full = rest.push((k, v));
    let p = lru_put(es, k, v);
    assert(full[full.len() - 1] == (k, v));
    if full.len() > ART_CACHE_CAPACITY {
        assert(p == full.drop_first());
        assert(p[p.len() - 1] == full[full.len() - 1]);
    } else {
        assert(p == full);
    }
    let n = p.len() - 1;
    assert(p[n].0 == k);
    lemma_key_index(p, k);
    assert(key_index(p, k) == Some(n));
}

/// A put of a new URL into a full cache evicts the least recently used
/// entry and nothing else: its URL is no longer cached, and every other
/// URL keeps its image.
pub proof fn law_put_evicts_least_recently_used<V>(
    es: Seq<(Seq<char>, V)>,
    k: Seq<char>,
    v: V,
    other: Seq<char>,
)
    requires
        distinct_keys(es),
        es.len() == ART_CACHE_CAPACITY,
        key_index(es, k) is None,
    ensures
        cached(lru_put(es, k, v), es[0].0) is None,
        other != es[0].0 && other != k ==> cached(lru_put(es, k, v), other) == cached(es, other),
{
    lemma_key_index(es, k);
    lemma_put(es, k, v);
    let p = lru_put(es, k, v);
    assert(p =~= es.push((k, v)).drop_first());
    assert forall|j: int| 0 <= j < p.len() implies #[trigger] p[j].0 != es[0].0 by {
        if j < es.len() - 1 {
            assert(p[j] == es[j + 1]);
        } else {
            assert(p[j].0 == k);
        }
    }
    lemma_key_index(p, es[0].0);
    lemma_key_index(es, other);
    lemma_key_index(p, other);
    if other != es[0].0 && other != k {
        if let Some(i) = key_index(es, other) {
            assert(i >= 1);
            assert(p[i - 1] == es[i]);
        } else {
            assert forall|j: int| 0 <= j < p.len() implies #[trigger] p[j].0 != other by {
                if j < es.len() - 1 {
                    assert(p[j] == es[j + 1]);
                }
            }
        }
    }
}

} // verus!
