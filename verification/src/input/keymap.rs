//! Key combination to [`Action`] lookup table.
//!
//! Defaults are encoded here. User overrides arrive through
//! [`KeymapSettings`] and *extend* (rather than replace) the defaults; the
//! `Ctrl-C` binding to [`Action::Quit`] holds whatever the overrides say.

use vstd::prelude::*;

use super::action::Action;
use super::key_parser::{parse, spec_parse_key, KeyCode, KeyCombo, KeyModifiers, CONTROL_BIT};
use crate::config::settings::KeymapSettings;
use crate::text::chars_eq_str;

verus! {

/// The map that a list of bindings builds when each is inserted in turn:
/// a later binding of the same combination replaces an earlier one.
pub open spec fn bindings_map(b: Seq<(KeyCombo, Action)>) -> Map<KeyCombo, Action>
    decreases b.len(),
{
    if b.len() == 0 {
        Map::empty()
    } else {
        bindings_map(b.drop_last()).insert(b.last().0, b.last().1)
    }
}

/// The last binding of `k` decides what `k` maps to.
pub proof fn lemma_last_binding_wins(b: Seq<(KeyCombo, Action)>, i: int)
    requires
        0 <= i < b.len(),
        forall|j: int| i < j < b.len() ==> #[trigger] b[j].0 != b[i].0,
    ensures
        bindings_map(b).contains_key(b[i].0),
        bindings_map(b)[b[i].0] == b[i].1,
    decreases b.len(),
{
    if i < b.len() - 1 {
        assert(b.drop_last()[i] == b[i]);
        assert forall|j: int| i < j < b.drop_last().len() implies #[trigger] b.drop_last()[j].0
            != b.drop_last()[i].0 by {
            assert(b.drop_last()[j] == b[j]);
        }
        lemma_last_binding_wins(b.drop_last(), i);
        assert(b.last().0 != b[i].0);
    }
}

/// A combination no binding names is not in the map.
pub proof fn lemma_unbound(b: Seq<(KeyCombo, Action)>, k: KeyCombo)
    requires
        forall|j: int| 0 <= j < b.len() ==> #[trigger] b[j].0 != k,
    ensures
        !bindings_map(b).contains_key(k),
    decreases b.len(),
{
    if b.len() > 0 {
        assert forall|j: int| 0 <= j < b.drop_last().len() implies #[trigger] b.drop_last()[j].0
            != k by {
            assert(b.drop_last()[j] == b[j]);
        }
        lemma_unbound(b.drop_last(), k);
        assert(b.last() == b[b.len() - 1]);
    }
}

/// Bindings that never name `k` leave what `k` maps to as it was.
pub proof fn lemma_append_keeps(a: Seq<(KeyCombo, Action)>, c: Seq<(KeyCombo, Action)>, k: KeyCombo)
    requires
        forall|j: int| 0 <= j < c.len() ==> #[trigger] c[j].0 != k,
    ensures
        bindings_map(a + c).contains_key(k) == bindings_map(a).contains_key(k),
        bindings_map(a).contains_key(k) ==> bindings_map(a + c)[k] == bindings_map(a)[k],
    decreases c.len(),
{
    if c.len() == 0 {
        assert(a + c =~= a);
    } else {
        assert forall|j: int| 0 <= j < c.drop_last().len() implies #[trigger] c.drop_last()[j].0
            != k by {
            assert(c.drop_last()[j] == c[j]);
        }
        lemma_append_keeps(a, c.drop_last(), k);
        assert((a + c).drop_last() =~= a + c.drop_last());
        assert((a + c).last() == c[c.len() - 1]);
    }
}

/// A key with no modifier.
pub open spec fn plain(code: KeyCode) -> KeyCombo {
    KeyCombo { code, modifiers: KeyModifiers { bits: 0 } }
}

/// `Ctrl-C`.
pub open spec fn ctrl_c() -> KeyCombo {
    KeyCombo { code: KeyCode::Char('c'), modifiers: KeyModifiers { bits: CONTROL_BIT } }
}

/// The built-in bindings, in the order they are installed.
pub open spec fn default_bindings() -> Seq<(KeyCombo, Action)> {
    seq![
        (plain(KeyCode::Char('q')), Action::Quit),
        (plain(KeyCode::Esc), Action::Quit),
        (plain(KeyCode::Char(' ')), Action::TogglePlayPause),
        (plain(KeyCode::Char('p')), Action::TogglePlayPause),
        (plain(KeyCode::Char('n')), Action::Next),
        (plain(KeyCode::Char('>')), Action::Next),
        (plain(KeyCode::Char('b')), Action::Previous),
        (plain(KeyCode::Char('<')), Action::Previous),
        (plain(KeyCode::Char('+')), Action::VolumeUp),
        (plain(KeyCode::Char('=')), Action::VolumeUp),
        (plain(KeyCode::Char('-')), Action::VolumeDown),
        (plain(KeyCode::Char('_')), Action::VolumeDown),
        (plain(KeyCode::Right), Action::SeekForward),
        (plain(KeyCode::Char('l')), Action::SeekForward),
        (plain(KeyCode::Left), Action::SeekBackward),
        (plain(KeyCode::Char('h')), Action::SeekBackward),
        (plain(KeyCode::Char('r')), Action::Redraw),
        (ctrl_c(), Action::Quit),
    ]
}

/// The built-in keymap.
pub open spec fn default_keymap() -> Map<KeyCombo, Action> {
    bindings_map(default_bindings())
}

/// The action an override section names, aliases included.
pub open spec fn spec_parse_action(name: Seq<char>) -> Option<Action> {
    if name == "quit"@ {
        Some(Action::Quit)
    } else if name == "toggle_play_pause"@ || name == "play_pause"@ {
        Some(Action::TogglePlayPause)
    } else if name == "next"@ {
        Some(Action::Next)
    } else if name == "previous"@ || name == "prev"@ {
        Some(Action::Previous)
    } else if name == "volume_up"@ || name == "vol_up"@ {
        Some(Action::VolumeUp)
    } else if name == "volume_down"@ || name == "vol_down"@ {
        Some(Action::VolumeDown)
    } else if name == "seek_forward"@ {
        Some(Action::SeekForward)
    } else if name == "seek_backward"@ {
        Some(Action::SeekBackward)
    } else if name == "redraw"@ || name == "refresh"@ {
        Some(Action::Redraw)
    } else {
        None
    }
}

/// The bindings that the key strings of one override entry contribute:
/// every string that parses, bound to `action`, in order.
pub open spec fn entry_bindings(action: Action, keys: Seq<Seq<char>>) -> Seq<(KeyCombo, Action)>
    decreases keys.len(),
{
    if keys.len() == 0 {
        Seq::empty()
    } else {
        let init = entry_bindings(action, keys.drop_last());
        match spec_parse_key(keys.last()) {
            Some(c) => init.push((c, action)),
            None => init,
        }
    }
}

/// The bindings that a keymap section contributes, entry by entry; entries
/// naming no action contribute none.
pub open spec fn user_bindings(entries: Seq<(Seq<char>, Seq<Seq<char>>)>) -> Seq<
    (KeyCombo, Action),
>
    decreases entries.len(),
{
    if entries.len() == 0 {
        Seq::empty()
    } else {
        let init = user_bindings(entries.drop_last());
        match spec_parse_action(entries.last().0) {
            Some(a) => init + entry_bindings(a, entries.last().1),
            None => init,
        }
    }
}

/// The keymap that a keymap section yields: the defaults, then the user's
/// bindings in order, then `Ctrl-C` to quit once more.
pub open spec fn configured_keymap(entries: Seq<(Seq<char>, Seq<Seq<char>>)>) -> Map<
    KeyCombo,
    Action,
> {
    bindings_map(default_bindings() + user_bindings(entries) + seq![(ctrl_c(), Action::Quit)])
}

/// The action that `name` names, if any.
pub fn parse_action(name: &str) -> (r: Option<Action>)
    ensures
        r == spec_parse_action(name@),
{
    let v = crate::text::chars_of(name);
    let n = v.len();
    assert(v@.subrange(0, n as int) =~= name@);
    let s = v.as_slice();
    if chars_eq_str(s, 0, n, "quit") {
        Some(Action::Quit)
    } else if chars_eq_str(s, 0, n, "toggle_play_pause") || chars_eq_str(s, 0, n, "play_pause") {
        Some(Action::TogglePlayPause)
    } else if chars_eq_str(s, 0, n, "next") {
        Some(Action::Next)
    } else if chars_eq_str(s, 0, n, "previous") || chars_eq_str(s, 0, n, "prev") {
        Some(Action::Previous)
    } else if chars_eq_str(s, 0, n, "volume_up") || chars_eq_str(s, 0, n, "vol_up") {
        Some(Action::VolumeUp)
    } else if chars_eq_str(s, 0, n, "volume_down") || chars_eq_str(s, 0, n, "vol_down") {
        Some(Action::VolumeDown)
    } else if chars_eq_str(s, 0, n, "seek_forward") {
        Some(Action::SeekForward)
    } else if chars_eq_str(s, 0, n, "seek_backward") {
        Some(Action::SeekBackward)
    } else if chars_eq_str(s, 0, n, "redraw") || chars_eq_str(s, 0, n, "refresh") {
        Some(Action::Redraw)
    } else {
        None
    }
}

fn key(code: KeyCode) -> (r: KeyCombo)
    ensures
        r == plain(code),
{
    KeyCombo { code, modifiers: KeyModifiers::none() }
}

/// The built-in bindings.
fn default_pairs() -> (r: Vec<(KeyCombo, Action)>)
    ensures
        r@ == default_bindings(),
{
    let r = vec![
        (key(KeyCode::Char('q')), Action::Quit),
        (key(KeyCode::Esc), Action::Quit),
        (key(KeyCode::Char(' ')), Action::TogglePlayPause),
        (key(KeyCode::Char('p')), Action::TogglePlayPause),
        (key(KeyCode::Char('n')), Action::Next),
        (key(KeyCode::Char('>')), Action::Next),
        (key(KeyCode::Char('b')), Action::Previous),
        (key(KeyCode::Char('<')), Action::Previous),
        (key(KeyCode::Char('+')), Action::VolumeUp),
        (key(KeyCode::Char('=')), Action::VolumeUp),
        (key(KeyCode::Char('-')), Action::VolumeDown),
        (key(KeyCode::Char('_')), Action::VolumeDown),
        (key(KeyCode::Right), Action::SeekForward),
        (key(KeyCode::Char('l')), Action::SeekForward),
        (key(KeyCode::Left), Action::SeekBackward),
        (key(KeyCode::Char('h')), Action::SeekBackward),
        (key(KeyCode::Char('r')), Action::Redraw),
        (KeyCombo { code: KeyCode::Char('c'), modifiers: KeyModifiers::control() }, Action::Quit),
    ];
    assert(r@ =~= default_bindings());
    r
}

/// The keybinding table.
#[derive(Debug)]
pub struct Keymap {
    bindings: Vec<(KeyCombo, Action)>,
}

impl View for Keymap {
    type V = Map<KeyCombo, Action>;

    closed spec fn view(&self) -> Map<KeyCombo, Action> {
        bindings_map(self.bindings@)
    }
}

impl Keymap {
    /// Built-in default bindings.
    pub fn defaults() -> (r: Self)
        ensures
            r@ == default_keymap(),
    {
        Keymap { bindings: default_pairs() }
    }

    /// Build from user settings, layered over the defaults: each binding
    /// string that parses, under an action name that is known, is added in
    /// order; `Ctrl-C` quits in any case.
    pub fn from_settings(settings: &KeymapSettings) -> (r: Self)
        ensures
            r@ == configured_keymap(settings.entries()),
    {
        let mut bindings = default_pairs();
        let entries = settings.iter();
        let ghost ev = settings.entries();
        let n = entries.len();
        let mut i: usize = 0;
        while i < n
            invariant
                n == entries@.len(),
                entries@ == settings.0@,
                ev == settings.entries(),
                ev.len() == n,
                i <= n,
                bindings@ == default_bindings() + user_bindings(ev.take(i as int)),
            decreases n - i,
        {
            let entry = &entries[i];
            assert(ev[i as int].0 == entry.0@);
            assert(ev.take(i + 1).drop_last() =~= ev.take(i as int));
            assert(ev.take(i + 1).last() == ev[i as int]);
            match parse_action(entry.0.as_str()) {
                Some(action) => {
                    let keys = &entry.1;
                    let ghost kv = ev[i as int].1;
                    let ghost base = bindings@;
                    let m = keys.len();
                    let mut j: usize = 0;
                    while j < m
                        invariant
                            m == keys@.len(),
                            kv == keys@.map_values(|k: String| k@),
                            j <= m,
                            bindings@ == base + entry_bindings(action, kv.take(j as int)),
                        decreases m - j,
                    {
                        assert(kv[j as int] == keys@[j as int]@);
                        assert(kv.take(j + 1).drop_last() =~= kv.take(j as int));
                        match parse(keys[j].as_str()) {
                            Some(combo) => {
                                bindings.push((combo, action));
                                assert(bindings@ =~= base + entry_bindings(
                                    action,
                                    kv.take(j + 1),
                                ));
                            },
                            None => {
                                assert(bindings@ =~= base + entry_bindings(
                                    action,
                                    kv.take(j + 1),
                                ));
                            },
                        }
                        j = j + 1;
                    }
                    assert(kv.take(m as int) =~= kv);
                    assert(bindings@ =~= default_bindings() + user_bindings(ev.take(i + 1)));
                },
                None => {},
            }
            i = i + 1;
        }
        assert(ev.take(n as int) =~= ev);
        let ghost before = bindings@;
        bindings.push(
            (KeyCombo { code: KeyCode::Char('c'), modifiers: KeyModifiers::control() }, Action::Quit),
        );
        assert(bindings@ =~= default_bindings() + user_bindings(ev) + seq![(ctrl_c(), Action::Quit)]);
        Keymap { bindings }
    }

    /// Equivalent to [`Self::defaults`].
    pub fn new() -> (r: Self)
        ensures
            r@ == default_keymap(),
    {
        Self::defaults()
    }

    /// The action bound to `combo`, if any.
    pub fn lookup(&self, combo: KeyCombo) -> (r: Option<Action>)
        ensures
            r == (if self@.contains_key(combo) {
                Some(self@[combo])
            } else {
                None
            }),
    {
        let n = self.bindings.len();
        let mut i = n;
        while i > 0
            invariant
                n == self.bindings@.len(),
                i <= n,
                forall|j: int| i <= j < n ==> #[trigger] self.bindings@[j].0 != combo,
            decreases i,
        {
            if self.bindings[i - 1].0 == combo {
                proof { lemma_last_binding_wins(self.bindings@, i - 1); }
                return Some(self.bindings[i - 1].1);
            }
            i = i - 1;
        }
        proof { lemma_unbound(self.bindings@, combo); }
        None
    }
}

impl Default for Keymap {
    fn default() -> (r: Self)
        ensures
            r@ == default_keymap(),
    {
        Self::defaults()
    }
}

/// `Ctrl-C` quits, whatever the keymap section holds.
pub proof fn law_ctrl_c_always_quits(entries: Seq<(Seq<char>, Seq<Seq<char>>)>)
    ensures
        configured_keymap(entries).contains_key(ctrl_c()),
        configured_keymap(entries)[ctrl_c()] == Action::Quit,
{
}

/// Overrides extend the defaults: a default binding whose combination no
/// override names keeps its action.
pub proof fn law_defaults_survive(entries: Seq<(Seq<char>, Seq<Seq<char>>)>, k: KeyCombo)
    requires
        default_keymap().contains_key(k),
        forall|j: int|
            0 <= j < user_bindings(entries).len() ==> #[trigger] user_bindings(entries)[j].0 != k,
    ensures
        configured_keymap(entries).contains_key(k),
        configured_keymap(entries)[k] == default_keymap()[k],
{
    let d = default_bindings();
    let u = user_bindings(entries);
    if k == ctrl_c() {
        lemma_last_binding_wins(d, 17);
    } else {
        let tail = u + seq![(ctrl_c(), Action::Quit)];
        assert forall|j: int| 0 <= j < tail.len() implies #[trigger] tail[j].0 != k by {
            if j < u.len() {
                assert(tail[j] == u[j]);
            }
        }
        lemma_append_keeps(d, tail, k);
        assert(d + u + seq![(ctrl_c(), Action::Quit)] =~= d + tail);
    }
}

/// An override takes effect: the last override that names a combination
/// other than `Ctrl-C` decides its action.
pub proof fn law_last_override_wins(entries: Seq<(Seq<char>, Seq<Seq<char>>)>, i: int)
    requires
        0 <= i < user_bindings(entries).len(),
        user_bindings(entries)[i].0 != ctrl_c(),
        forall|j: int|
            i < j < user_bindings(entries).len() ==> #[trigger] user_bindings(entries)[j].0
                != user_bindings(entries)[i].0,
    ensures
        configured_keymap(entries).contains_key(user_bindings(entries)[i].0),
        configured_keymap(entries)[user_bindings(entries)[i].0] == user_bindings(entries)[i].1,
{
    let d = default_bindings();
    let u = user_bindings(entries);
    let all = d + u + seq![(ctrl_c(), Action::Quit)];
    let p = d.len() + i;
    assert(all[p] == u[i]);
    assert forall|j: int| p < j < all.len() implies #[trigger] all[j].0 != all[p].0 by {
        if j < d.len() + u.len() {
            assert(all[j] == u[j - d.len()]);
        }
    }
    lemma_last_binding_wins(all, p);
}

/// The last binding of `k` in `b`, when `b` binds `k` at all.
proof fn lemma_last_binding_index(b: Seq<(KeyCombo, Action)>, k: KeyCombo) -> (i: int)
    requires
        exists|j: int| 0 <= j < b.len() && #[trigger] b[j].0 == k,
    ensures
        0 <= i < b.len(),
        b[i].0 == k,
        forall|j: int| i < j < b.len() ==> #[trigger] b[j].0 != k,
    decreases b.len(),
{
    if b[b.len() - 1].0 == k {
        b.len() - 1
    } else {
        let init = b.drop_last();
        let w = choose|j: int| 0 <= j < b.len() && #[trigger] b[j].0 == k;
        assert(init[w].0 == k);
        let i = lemma_last_binding_index(init, k);
        assert forall|j: int| i < j < b.len() implies #[trigger] b[j].0 != k by {
            if j < init.len() {
                assert(init[j] == b[j]);
            }
        }
        assert(init[i] == b[i]);
        i
    }
}

/// User bindings extend the defaults rather than replace them: a
/// combination that no user binding names maps as the defaults map it (or
/// stays unbound), and a combination other than `Ctrl-C` that user bindings
/// name, all for the same action, maps to that action.
pub proof fn law_user_bindings_extend_defaults(
    entries: Seq<(Seq<char>, Seq<Seq<char>>)>,
    k: KeyCombo,
    a: Action,
)
    ensures
        (forall|j: int|
            0 <= j < user_bindings(entries).len() ==> #[trigger] user_bindings(entries)[j].0 != k)
            ==> (configured_keymap(entries).contains_key(k) == default_keymap().contains_key(k) && (
        default_keymap().contains_key(k) ==> configured_keymap(entries)[k] == default_keymap()[k])),
        (k != ctrl_c() && (exists|j: int|
            0 <= j < user_bindings(entries).len() && #[trigger] user_bindings(entries)[j].0 == k)
            && (forall|j: int|
            0 <= j < user_bindings(entries).len() && #[trigger] user_bindings(entries)[j].0 == k
                ==> user_bindings(entries)[j].1 == a)) ==> (configured_keymap(entries).contains_key(k)
            && configured_keymap(entries)[k] == a),
{
    let d = default_bindings();
    let u = user_bindings(entries);
    if forall|j: int| 0 <= j < u.len() ==> #[trigger] u[j].0 != k {
        if k == ctrl_c() {
            law_ctrl_c_always_quits(entries);
            lemma_last_binding_wins(d, 17);
        } else {
            let tail = u + seq![(ctrl_c(), Action::Quit)];
            assert forall|j: int| 0 <= j < tail.len() implies #[trigger] tail[j].0 != k by {
                if j < u.len() {
                    assert(tail[j] == u[j]);
                }
            }
            lemma_append_keeps(d, tail, k);
            assert(d + u + seq![(ctrl_c(), Action::Quit)] =~= d + tail);
        }
    }
    if k != ctrl_c() && (exists|j: int| 0 <= j < u.len() && #[trigger] u[j].0 == k) && (forall|
        j: int,
    |
        0 <= j < u.len() && #[trigger] u[j].0 == k ==> u[j].1 == a) {
        let i = lemma_last_binding_index(u, k);
        law_last_override_wins(entries, i);
    }
}

} // verus!
