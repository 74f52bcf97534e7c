//! Layering of configuration sources over the defaults.
//!
//! The program reads the configuration file and the `SPTF_` environment
//! variables into [`SettingsLayer`]s; [`Settings::load`] applies them in
//! order over the built-in defaults.

use vstd::prelude::*;

use super::paths::Paths;
use super::settings::{
    keymap_entries_view, KeymapSettings, LoggingSettings, PlayerSettings, UiSettings,
};
use crate::text::{chars_eq_str, chars_of};

verus! {

/// Fully resolved application settings.
#[derive(Debug)]
pub struct Settings {
    pub ui: UiSettings,
    pub player: PlayerSettings,
    pub logging: LoggingSettings,
    /// User keybinding overrides (`[keys]`).
    pub keys: KeymapSettings,
    /// Resolved filesystem locations; not read from the sources.
    pub paths: Paths,
}

/// What one source sets: each field it names, and the `[keys]` entries it
/// lists.
#[derive(Debug)]
pub struct SettingsLayer {
    pub theme: Option<String>,
    pub frame_rate: Option<u16>,
    pub show_album_art: Option<bool>,
    pub preferred: Option<String>,
    pub position_poll_ms: Option<u64>,
    pub level: Option<String>,
    pub keys: Vec<(String, Vec<String>)>,
}

/// The settings' values, strings taken by their views.
#[verifier::ext_equal]
pub struct SettingsView {
    pub theme: Seq<char>,
    pub frame_rate: u16,
    pub show_album_art: bool,
    pub preferred: Option<Seq<char>>,
    pub position_poll_ms: u64,
    pub level: Seq<char>,
    pub keys: Seq<(Seq<char>, Seq<Seq<char>>)>,
}

/// A layer's values, strings taken by their views.
pub struct LayerView {
    pub theme: Option<Seq<char>>,
    pub frame_rate: Option<u16>,
    pub show_album_art: Option<bool>,
    pub preferred: Option<Seq<char>>,
    pub position_poll_ms: Option<u64>,
    pub level: Option<Seq<char>>,
    pub keys: Seq<(Seq<char>, Seq<Seq<char>>)>,
}

impl View for Settings {
    type V = SettingsView;

    open spec fn view(&self) -> SettingsView {
        SettingsView {
            theme: self.ui.theme@,
            frame_rate: self.ui.frame_rate,
            show_album_art: self.ui.show_album_art,
            preferred: crate::domain::track::opt_str(self.player.preferred),
            position_poll_ms: self.player.position_poll_ms,
            level: self.logging.level@,
            keys: self.keys.entries(),
        }
    }
}

impl View for SettingsLayer {
    type V = LayerView;

    open spec fn view(&self) -> LayerView {
        LayerView {
            theme: crate::domain::track::opt_str(self.theme),
            frame_rate: self.frame_rate,
            show_album_art: self.show_album_art,
            preferred: crate::domain::track::opt_str(self.preferred),
            position_poll_ms: self.position_poll_ms,
            level: crate::domain::track::opt_str(self.level),
            keys: keymap_entries_view(self.keys@),
        }
    }
}

/// The built-in settings.
pub open spec fn default_settings() -> SettingsView {
    SettingsView {
        theme: "spotify-dark"@,
        frame_rate: 30,
        show_album_art: true,
        preferred: Some("spotify"@),
        position_poll_ms: 500,
        level: "warn"@,
        keys: Seq::empty(),
    }
}

/// Index of the entry for action `name`, if any.
pub open spec fn key_entry_index(es: Seq<(Seq<char>, Seq<Seq<char>>)>, name: Seq<char>) -> Option<int>
    decreases es.len(),
{
    if es.len() == 0 {
        None
    } else {
        match key_entry_index(es.drop_last(), name) {
            Some(i) => Some(i),
            None => if es.last().0 == name {
                Some(es.len() - 1)
            } else {
                None
            },
        }
    }
}

/// `es` with the entry `e` merged in: it replaces the entry for the same
/// action, or is added at the end.
pub open spec fn upsert_entry(
    es: Seq<(Seq<char>, Seq<Seq<char>>)>,
    e: (Seq<char>, Seq<Seq<char>>),
) -> Seq<(Seq<char>, Seq<Seq<char>>)> {
    match key_entry_index(es, e.0) {
        Some(i) => es.update(i, e),
        None => es.push(e),
    }
}

/// `es` with every entry of `add` merged in, in order.
pub open spec fn merge_entries(
    es: Seq<(Seq<char>, Seq<Seq<char>>)>,
    add: Seq<(Seq<char>, Seq<Seq<char>>)>,
) -> Seq<(Seq<char>, Seq<Seq<char>>)>
    decreases add.len(),
{
    if add.len() == 0 {
        es
    } else {
        upsert_entry(merge_entries(es, add.drop_last()), add.last())
    }
}

/// `base` with what `layer` sets taking precedence.
pub open spec fn apply_layer(base: SettingsView, layer: LayerView) -> SettingsView {
    SettingsView {
        theme: match layer.theme {
            Some(t) => t,
            None => base.theme,
        },
        frame_rate: match layer.frame_rate {
            Some(f) => f,
            None => base.frame_rate,
        },
        show_album_art: match layer.show_album_art {
            Some(b) => b,
            None => base.show_album_art,
        },
        preferred: match layer.preferred {
            Some(p) => Some(p),
            None => base.preferred,
        },
        position_poll_ms: match layer.position_poll_ms {
            Some(p) => p,
            None => base.position_poll_ms,
        },
        level: match layer.level {
            Some(l) => l,
            None => base.level,
        },
        keys: merge_entries(base.keys, layer.keys),
    }
}

/// The settings that `layers` yield, applied in order over the defaults.
pub open spec fn layered(layers: Seq<LayerView>) -> SettingsView
    decreases layers.len(),
{
    if layers.len() == 0 {
        default_settings()
    } else {
        apply_layer(layered(layers.drop_last()), layers.last())
    }
}

/// Layers taken by their views.
pub open spec fn layers_view(v: Seq<SettingsLayer>) -> Seq<LayerView> {
    v.map_values(|l: SettingsLayer| l@)
}

impl Default for Settings {
    fn default() -> (r: Self)
        ensures
            r@ == default_settings(),
            r.paths.config_file@.len() == 0,
            r.paths.config_dir@.len() == 0,
            r.paths.cache_dir@.len() == 0,
            r.paths.log_dir@.len() == 0,
    {
        let r = Settings {
            ui: UiSettings::default(),
            player: PlayerSettings::default(),
            logging: LoggingSettings::default(),
            keys: KeymapSettings::default(),
            paths: Paths::empty(),
        };
        assert(r@ =~= default_settings());
        r
    }
}

/// Index of the entry of `es` for action `name`.
fn find_entry(es: &Vec<(String, Vec<String>)>, name: &str) -> (r: Option<usize>)
    ensures
        r matches Some(i) ==> key_entry_index(keymap_entries_view(es@), name@) == Some(i as int),
        r is None ==> key_entry_index(keymap_entries_view(es@), name@) is None,
{
    let ghost ev = keymap_entries_view(es@);
    let n = es.len();
    let mut i: usize = 0;
    while i < n
        invariant
            n == es@.len(),
            ev == keymap_entries_view(es@),
            i <= n,
            key_entry_index(ev.take(i as int), name@) is None,
        decreases n - i,
    {
        let k = chars_of(es[i].0.as_str());
        assert(k@.subrange(0, k@.len() as int) =~= k@);
        assert(ev.take(i + 1).drop_last() =~= ev.take(i as int));
        assert(ev[i as int].0 == es@[i as int].0@);
        if chars_eq_str(k.as_slice(), 0, k.len(), name) {
            assert(key_entry_index(ev.take(i + 1), name@) == Some(i as int));
            proof { lemma_entry_index_prefix(ev, name@, i + 1); }
            return Some(i);
        }
        i = i + 1;
    }
    assert(ev.take(n as int) =~= ev);
    None
}

/// An entry found in a prefix is the entry of the whole list.
pub proof fn lemma_entry_index_prefix(es: Seq<(Seq<char>, Seq<Seq<char>>)>, name: Seq<char>, i: int)
    requires
        0 <= i <= es.len(),
        key_entry_index(es.take(i), name) is Some,
    ensures
        key_entry_index(es, name) == key_entry_index(es.take(i), name),
    decreases es.len() - i,
{
    if i < es.len() {
        assert(es.take(i + 1).drop_last() =~= es.take(i));
        lemma_entry_index_prefix(es, name, i + 1);
    } else {
        assert(es.take(i) =~= es);
    }
}

/// A found entry index is an index of the list.
pub proof fn lemma_entry_index_range(es: Seq<(Seq<char>, Seq<Seq<char>>)>, name: Seq<char>)
    ensures
        key_entry_index(es, name) matches Some(i) ==> 0 <= i < es.len(),
    decreases es.len(),
{
    if es.len() > 0 {
        lemma_entry_index_range(es.drop_last(), name);
    }
}

/// The elements of `v` in reverse order.
fn reversed<T>(v: Vec<T>) -> (r: Vec<T>)
    ensures
        r@ == v@.reverse(),
{
    let ghost orig = v@;
    let n = v.len();
    let mut rest = v;
    let mut out: Vec<T> = Vec::new();
    while rest.len() > 0
        invariant
            n == orig.len(),
            rest@.len() <= n,
            rest@ == orig.take(rest@.len() as int),
            out@ == orig.reverse().take(n - rest@.len()),
        decreases rest@.len(),
    {
        let ghost k = rest@.len();
        let ghost before = rest@;
        let x = rest.pop().unwrap();
        assert(before == orig.take(k as int));
        assert(x == before[k - 1]);
        assert(x == orig[k - 1]);
        out.push(x);
        assert(rest@ =~= orig.take(k - 1));
        assert(out@ =~= orig.reverse().take(n - (k - 1)));
    }
    assert(out@ =~= orig.reverse());
    out
}

/// Merge the entries of `add` into `es`, in order.
fn merge_keys(es: &mut Vec<(String, Vec<String>)>, add: Vec<(String, Vec<String>)>)
    ensures
        keymap_entries_view(final(es)@) == merge_entries(
            keymap_entries_view(old(es)@),
            keymap_entries_view(add@),
        ),
{
    let ghost av = keymap_entries_view(add@);
    let ghost orig = add@;
    let ghost start = keymap_entries_view(es@);
    let n = add.len();
    let mut pending = reversed(add);
    let mut i: usize = 0;
    while i < n
        invariant
            n == av.len(),
            n == orig.len(),
            i <= n,
            av == keymap_entries_view(orig),
            keymap_entries_view(es@) == merge_entries(start, av.take(i as int)),
            pending@ == orig.reverse().take(n - i),
        decreases n - i,
    {
        let e = pending.pop().unwrap();
        assert(e == orig[i as int]);
        assert(pending@ =~= orig.reverse().take(n - (i + 1)));
        assert(av.take(i + 1).drop_last() =~= av.take(i as int));
        assert(av.take(i + 1).last() == av[i as int]);
        let ghost ev = (e.0@, e.1@.map_values(|k: String| k@));
        assert(ev == av[i as int]);
        let ghost before = keymap_entries_view(es@);
        match find_entry(es, e.0.as_str()) {
            Some(j) => {
                proof { lemma_entry_index_range(before, ev.0); }
                es.set(j, e);
                assert(keymap_entries_view(es@) =~= before.update(j as int, ev));
            },
            None => {
                es.push(e);
                assert(keymap_entries_view(es@) =~= before.push(ev));
            },
        }
        i = i + 1;
    }
    assert(av.take(n as int) =~= av);
}

/// The configuration file to read: an explicit non-empty path, else the
/// standard file when it exists, else none.
pub open spec fn chosen_file(
    override_path: Option<Seq<char>>,
    default_file: Seq<char>,
    default_exists: bool,
) -> Option<Seq<char>> {
    match override_path {
        Some(p) if p.len() > 0 => Some(p),
        _ => if default_exists {
            Some(default_file)
        } else {
            None
        },
    }
}

impl Settings {
    /// Apply one source over these settings.
    fn apply(&mut self, layer: SettingsLayer)
        ensures
            final(self)@ == apply_layer(old(self)@, layer@),
            final(self).paths == old(self).paths,
    {
        let ghost lv = layer@;
        let SettingsLayer {
            theme,
            frame_rate,
            show_album_art,
            preferred,
            position_poll_ms,
            level,
            keys,
        } = layer;
        if let Some(t) = theme {
            self.ui.theme = t;
        }
        if let Some(f) = frame_rate {
            self.ui.frame_rate = f;
        }
        if let Some(b) = show_album_art {
            self.ui.show_album_art = b;
        }
        if let Some(p) = preferred {
            self.player.preferred = Some(p);
        }
        if let Some(p) = position_poll_ms {
            self.player.position_poll_ms = p;
        }
        if let Some(l) = level {
            self.logging.level = l;
        }
        merge_keys(&mut self.keys.0, keys);
        assert(self@ =~= apply_layer(old(self)@, lv));
    }

    /// The settings that the sources yield: the defaults, overridden by
    /// each layer in turn (the file, then the environment), with the
    /// resolved `paths`.
    pub fn load(paths: Paths, layers: Vec<SettingsLayer>) -> (r: Settings)
        ensures
            r@ == layered(layers_view(layers@)),
            r.paths == paths,
    {
        let ghost lv = layers_view(layers@);
        let mut s = Settings::default();
        s.paths = paths;
        let n = layers.len();
        let ghost orig = layers@;
        let mut pending = reversed(layers);
        let mut i: usize = 0;
        while i < n
            invariant
                n == lv.len(),
                lv == layers_view(layers@),
                i <= n,
                n == orig.len(),
                orig == layers@,
                pending@ == orig.reverse().take(n - i),
                s@ == layered(lv.take(i as int)),
                s.paths == paths,
            decreases n - i,
        {
            let l = pending.pop().unwrap();
            assert(l == orig[i as int]);
            assert(pending@ =~= orig.reverse().take(n - (i + 1)));
            assert(l@ == lv[i as int]);
            assert(lv.take(i + 1).drop_last() =~= lv.take(i as int));
            s.apply(l);
            i = i + 1;
        }
        assert(lv.take(n as int) =~= lv);
        s
    }

    /// The configuration file to read: an explicit non-empty path, else
    /// the standard file when it exists, else none.
    pub fn file_to_load(override_path: Option<&str>, default_file: &str, default_exists: bool) -> (r:
        Option<String>)
        ensures
            crate::domain::track::opt_str(r) == chosen_file(
                crate::mpris::discovery::opt_view(override_path),
                default_file@,
                default_exists,
            ),
    {
        if let Some(p) = override_path {
            if p.unicode_len() > 0 {
                return Some(String::from_str(p));
            }
        }
        if default_exists {
            Some(String::from_str(default_file))
        } else {
            None
        }
    }
}

/// Whether no two entries of `es` are for the same action.
pub open spec fn distinct_actions(es: Seq<(Seq<char>, Seq<Seq<char>>)>) -> bool {
    forall|i: int, j: int| 0 <= i < j < es.len() ==> #[trigger] es[i].0 != #[trigger] es[j].0
}

/// What [`key_entry_index`] finds: the entry for `name`, or that there is
/// none.
pub proof fn lemma_entry_index_found(es: Seq<(Seq<char>, Seq<Seq<char>>)>, name: Seq<char>)
    ensures
        key_entry_index(es, name) matches Some(i) ==> 0 <= i < es.len() && es[i].0 == name,
        key_entry_index(es, name) is None ==> forall|j: int|
            0 <= j < es.len() ==> #[trigger] es[j].0 != name,
    decreases es.len(),
{
    if es.len() > 0 {
        let init = es.drop_last();
        lemma_entry_index_found(init, name);
        assert forall|j: int| 0 <= j < init.len() implies #[trigger] init[j] == es[j] by {}
        assert(es.last() == es[es.len() - 1]);
        if key_entry_index(es, name) is None {
            assert forall|j: int| 0 <= j < es.len() implies #[trigger] es[j].0 != name by {
                if j < init.len() {
                    assert(init[j] == es[j]);
                }
            }
        }
    }
}

/// Merging entries keeps one entry per action.
pub proof fn lemma_merge_distinct(
    es: Seq<(Seq<char>, Seq<Seq<char>>)>,
    add: Seq<(Seq<char>, Seq<Seq<char>>)>,
)
    requires
        distinct_actions(es),
    ensures
        distinct_actions(merge_entries(es, add)),
    decreases add.len(),
{
    if add.len() > 0 {
        let m = merge_entries(es, add.drop_last());
        lemma_merge_distinct(es, add.drop_last());
        let e = add.last();
        lemma_entry_index_found(m, e.0);
        let u = upsert_entry(m, e);
        match key_entry_index(m, e.0) {
            Some(k) => {
                assert forall|i: int, j: int| 0 <= i < j < u.len() implies #[trigger] u[i].0
                    != #[trigger] u[j].0 by {
                    if i != k && j != k {
                        assert(u[i] == m[i] && u[j] == m[j]);
                    } else if i == k {
                        assert(u[j] == m[j]);
                    } else {
                        assert(u[i] == m[i]);
                    }
                }
            },
            None => {
                assert forall|i: int, j: int| 0 <= i < j < u.len() implies #[trigger] u[i].0
                    != #[trigger] u[j].0 by {
                    assert(u[i] == m[i]);
                    if j < m.len() {
                        assert(u[j] == m[j]);
                    }
                }
            },
        }
    }
}

/// However many sources list keybindings, the settings hold at most one
/// entry per action: a later entry for an action replaces the earlier one.
pub proof fn law_keys_one_entry_per_action(layers: Seq<LayerView>)
    ensures
        distinct_actions(layered(layers).keys),
    decreases layers.len(),
{
    if layers.len() > 0 {
        law_keys_one_entry_per_action(layers.drop_last());
        lemma_merge_distinct(layered(layers.drop_last()).keys, layers.last().keys);
    }
}

/// The environment overrides the file, and the file the defaults: each
/// setting comes from the environment when it sets it, else from the file
/// when it sets it, else from the defaults.
pub proof fn law_environment_overrides_file(file: LayerView, env: LayerView)
    ensures
        layered(seq![file, env]).theme == (match env.theme {
            Some(t) => t,
            None => match file.theme {
                Some(t) => t,
                None => "spotify-dark"@,
            },
        }),
        layered(seq![file, env]).frame_rate == (match env.frame_rate {
            Some(f) => f,
            None => match file.frame_rate {
                Some(f) => f,
                None => 30,
            },
        }),
        layered(seq![file, env]).show_album_art == (match env.show_album_art {
            Some(b) => b,
            None => match file.show_album_art {
                Some(b) => b,
                None => true,
            },
        }),
        layered(seq![file, env]).preferred == (match env.preferred {
            Some(p) => Some(p),
            None => match file.preferred {
                Some(p) => Some(p),
                None => Some("spotify"@),
            },
        }),
        layered(seq![file, env]).position_poll_ms == (match env.position_poll_ms {
            Some(p) => p,
            None => match file.position_poll_ms {
                Some(p) => p,
                None => 500,
            },
        }),
        layered(seq![file, env]).level == (match env.level {
            Some(l) => l,
            None => match file.level {
                Some(l) => l,
                None => "warn"@,
            },
        }),
{
    let one = seq![file];
    let two = seq![file, env];
    assert(two.drop_last() =~= one);
    assert(one.drop_last() =~= Seq::<LayerView>::empty());
    assert(layered(Seq::<LayerView>::empty()) == default_settings());
    assert(layered(one) == apply_layer(default_settings(), file));
    assert(layered(two) == apply_layer(layered(one), env));
}

} // verus!
