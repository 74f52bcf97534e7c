//! String to [`KeyCombo`] parser used for config-driven keybindings.
//!
//! Syntax: `(modifier-)*key`. Tokens are case-insensitive.
//!
//! - Modifiers: `ctrl` (alias `control`), `alt` (alias `meta`), `shift`.
//! - Named keys: `esc`, `escape`, `tab`, `space`, `enter`, `return`,
//!   `backspace`, `left`, `right`, `up`, `down`, `home`, `end`,
//!   `pageup`, `pagedown`, `delete`, `insert`.
//! - Function keys: `f1`–`f12`.
//! - Single-char keys: the character itself (e.g. `q`, `+`, `<`, `f`, and
//!   `-`, which stands alone or after a modifier's `-`, as in `ctrl--`).

use vstd::prelude::*;

use crate::text::{
    chars_eq_str, chars_of, parse_unsigned, parse_unsigned_range, spans_view, spans_within,
    split_on, split_spans, lowercase, ascii_lower, is_ascii_text, lemma_ascii_lower_idempotent,
    lemma_split_on_concat, lemma_split_on_no_sep, lemma_trim_ascii_lower, lemma_trim_idempotent, string_of_range, to_lowercase, trim, trim_bounds,
    Span, decimal, digit_char, lemma_decimal_reads_back,
};

verus! {

/// A key, as the terminal reports it.
#[derive(Debug, Clone, Copy, PartialEq, Eq, Hash, Structural)]
pub enum KeyCode {
    Backspace,
    Enter,
    Left,
    Right,
    Up,
    Down,
    Home,
    End,
    PageUp,
    PageDown,
    Tab,
    BackTab,
    Delete,
    Insert,
    F(u8),
    Char(char),
    Null,
    Esc,
    /// Any other key the terminal can report; no binding names one.
    Other,
}

/// The modifier keys held with a key, as a bit set: shift `1`, control
/// `2`, alt `4`; higher bits for the rarer modifiers a terminal reports.
#[derive(Debug, Clone, Copy, PartialEq, Eq, Hash, Structural)]
pub struct KeyModifiers {
    pub bits: u8,
}

/// Bit of the shift modifier.
pub const SHIFT_BIT: u8 = 1;
/// Bit of the control modifier.
pub const CONTROL_BIT: u8 = 2;
/// Bit of the alt modifier.
pub const ALT_BIT: u8 = 4;

impl KeyModifiers {
    /// No modifier.
    pub fn none() -> (r: Self)
        ensures
            r.bits == 0,
    {
        KeyModifiers { bits: 0 }
    }

    /// Shift alone.
    pub fn shift() -> (r: Self)
        ensures
            r.bits == SHIFT_BIT,
    {
        KeyModifiers { bits: SHIFT_BIT }
    }

    /// Control alone.
    pub fn control() -> (r: Self)
        ensures
            r.bits == CONTROL_BIT,
    {
        KeyModifiers { bits: CONTROL_BIT }
    }

    /// Alt alone.
    pub fn alt() -> (r: Self)
        ensures
            r.bits == ALT_BIT,
    {
        KeyModifiers { bits: ALT_BIT }
    }

    /// Both sets of modifiers.
    pub fn union(self, other: Self) -> (r: Self)
        ensures
            r.bits == self.bits | other.bits,
    {
        KeyModifiers { bits: self.bits | other.bits }
    }
}

/// A key together with its modifiers: what a binding is keyed by.
#[derive(Debug, Clone, Copy, PartialEq, Eq, Hash, Structural)]
pub struct KeyCombo {
    pub code: KeyCode,
    pub modifiers: KeyModifiers,
}

impl KeyCombo {
    pub fn new(code: KeyCode, modifiers: KeyModifiers) -> (r: Self)
        ensures
            r.code == code,
            r.modifiers == modifiers,
    {
        KeyCombo { code, modifiers }
    }
}

/// The modifier bit a token names, if any.
pub open spec fn spec_modifier(m: Seq<char>) -> Option<u8> {
    if m == "ctrl"@ || m == "control"@ {
        Some(CONTROL_BIT)
    } else if m == "alt"@ || m == "meta"@ {
        Some(ALT_BIT)
    } else if m == "shift"@ {
        Some(SHIFT_BIT)
    } else {
        None
    }
}

/// The union of the modifiers named by `parts`, or `None` when one of them
/// names no modifier.
pub open spec fn spec_modifiers(parts: Seq<Seq<char>>) -> Option<u8>
    decreases parts.len(),
{
    if parts.len() == 0 {
        Some(0u8)
    } else {
        match (spec_modifiers(parts.drop_last()), spec_modifier(parts.last())) {
            (Some(a), Some(b)) => Some(a | b),
            _ => None,
        }
    }
}

/// Bytes that `c` takes in UTF-8.
pub open spec fn utf8_width(c: char) -> nat {
    if (c as u32) < 0x80 {
        1
    } else if (c as u32) < 0x800 {
        2
    } else if (c as u32) < 0x10000 {
        3
    } else {
        4
    }
}

/// Bytes that `s` takes in UTF-8.
pub open spec fn utf8_len(s: Seq<char>) -> nat
    decreases s.len(),
{
    if s.len() == 0 {
        0
    } else {
        utf8_len(s.drop_last()) + utf8_width(s.last())
    }
}

/// The key a (lowercase) token names.
pub open spec fn spec_keycode(t: Seq<char>) -> Option<KeyCode> {
    if t == "esc"@ || t == "escape"@ {
        Some(KeyCode::Esc)
    } else if t == "tab"@ {
        Some(KeyCode::Tab)
    } else if t == "space"@ {
        Some(KeyCode::Char(' '))
    } else if t == "enter"@ || t == "return"@ {
        Some(KeyCode::Enter)
    } else if t == "backspace"@ {
        Some(KeyCode::Backspace)
    } else if t == "left"@ {
        Some(KeyCode::Left)
    } else if t == "right"@ {
        Some(KeyCode::Right)
    } else if t == "up"@ {
        Some(KeyCode::Up)
    } else if t == "down"@ {
        Some(KeyCode::Down)
    } else if t == "home"@ {
        Some(KeyCode::Home)
    } else if t == "end"@ {
        Some(KeyCode::End)
    } else if t == "pageup"@ || t == "page_up"@ {
        Some(KeyCode::PageUp)
    } else if t == "pagedown"@ || t == "page_down"@ {
        Some(KeyCode::PageDown)
    } else if t == "delete"@ || t == "del"@ {
        Some(KeyCode::Delete)
    } else if t == "insert"@ || t == "ins"@ {
        Some(KeyCode::Insert)
    } else if t.len() > 1 && t[0] == 'f' && utf8_len(t) <= 3 {
        match parse_unsigned(t.drop_first(), 255) {
            Some(n) => if n == 0 || n > 12 {
                None
            } else {
                Some(KeyCode::F(n as u8))
            },
            None => None,
        }
    } else if t.len() == 1 {
        Some(KeyCode::Char(t[0]))
    } else {
        None
    }
}

/// The combination a trimmed, lowercased binding string names. A final `-`
/// is the key `-` when it stands alone or follows the `-` that ends the
/// modifiers; otherwise the text is split at `-` into modifiers and a key.
pub open spec fn spec_parse_normalized(s: Seq<char>) -> Option<KeyCombo> {
    if s.len() == 0 {
        None
    } else if s.last() == '-' {
        if s.len() == 1 {
            Some(KeyCombo { code: KeyCode::Char('-'), modifiers: KeyModifiers { bits: 0 } })
        } else if s[s.len() - 2] == '-' {
            match spec_modifiers(split_on(s.subrange(0, s.len() - 2), '-')) {
                Some(bits) => Some(
                    KeyCombo { code: KeyCode::Char('-'), modifiers: KeyModifiers { bits } },
                ),
                None => None,
            }
        } else {
            None
        }
    } else {
        let parts = split_on(s, '-');
        match spec_modifiers(parts.drop_last()) {
            None => None,
            Some(bits) => match spec_keycode(parts.last()) {
                Some(code) => Some(KeyCombo { code, modifiers: KeyModifiers { bits } }),
                None => None,
            },
        }
    }
}

/// The combination a binding string names: it is trimmed, lowercased, then
/// read as `(modifier-)*key`.
pub open spec fn spec_parse_key(raw: Seq<char>) -> Option<KeyCombo> {
    spec_parse_normalized(lowercase(trim(raw)))
}

fn parse_modifier(v: &[char], sp: &Span) -> (r: Option<u8>)
    requires
        sp.start <= sp.end <= v@.len(),
    ensures
        r == spec_modifier(v@.subrange(sp.start as int, sp.end as int)),
{
    if chars_eq_str(v, sp.start, sp.end, "ctrl") || chars_eq_str(v, sp.start, sp.end, "control") {
        Some(CONTROL_BIT)
    } else if chars_eq_str(v, sp.start, sp.end, "alt") || chars_eq_str(
        v,
        sp.start,
        sp.end,
        "meta",
    ) {
        Some(ALT_BIT)
    } else if chars_eq_str(v, sp.start, sp.end, "shift") {
        Some(SHIFT_BIT)
    } else {
        None
    }
}

/// Whether `v[from..to]` takes at most `limit` bytes in UTF-8.
fn utf8_len_at_most(v: &[char], from: usize, to: usize, limit: usize) -> (r: bool)
    requires
        from <= to <= v@.len(),
        limit <= 16,
    ensures
        r == (utf8_len(v@.subrange(from as int, to as int)) <= limit),
{
    let mut acc: usize = 0;
    let mut i = from;
    while i < to
        invariant
            from <= i <= to <= v@.len(),
            limit <= 16,
            acc <= limit,
            acc == utf8_len(v@.subrange(from as int, i as int)),
        decreases to - i,
    {
        let u = v[i] as u32;
        let w: usize = if u < 0x80 {
            1
        } else if u < 0x800 {
            2
        } else if u < 0x10000 {
            3
        } else {
            4
        };
        assert(v@.subrange(from as int, i + 1).drop_last() =~= v@.subrange(
            from as int,
            i as int,
        ));
        if acc + w > limit {
            proof { lemma_utf8_len_prefix(v@.subrange(from as int, to as int), i + 1 - from); }
            assert(v@.subrange(from as int, to as int).subrange(0, i + 1 - from) =~= v@.subrange(
                from as int,
                i + 1,
            ));
            return false;
        }
        acc = acc + w;
        i = i + 1;
    }
    true
}

/// The UTF-8 length of a prefix is at most that of the whole.
pub proof fn lemma_utf8_len_prefix(s: Seq<char>, i: int)
    requires
        0 <= i <= s.len(),
    ensures
        utf8_len(s.subrange(0, i)) <= utf8_len(s),
    decreases s.len() - i,
{
    if i < s.len() {
        lemma_utf8_len_prefix(s, i + 1);
        assert(s.subrange(0, i + 1).drop_last() =~= s.subrange(0, i));
    } else {
        assert(s.subrange(0, i) =~= s);
    }
}

/// The key that `v[sp]` names.
fn parse_keycode(v: &[char], sp: &Span) -> (r: Option<KeyCode>)
    requires
        sp.start <= sp.end <= v@.len(),
    ensures
        r == spec_keycode(v@.subrange(sp.start as int, sp.end as int)),
{
    let (a, b) = (sp.start, sp.end);
    let ghost t = v@.subrange(a as int, b as int);
    if chars_eq_str(v, a, b, "esc") || chars_eq_str(v, a, b, "escape") {
        Some(KeyCode::Esc)
    } else if chars_eq_str(v, a, b, "tab") {
        Some(KeyCode::Tab)
    } else if chars_eq_str(v, a, b, "space") {
        Some(KeyCode::Char(' '))
    } else if chars_eq_str(v, a, b, "enter") || chars_eq_str(v, a, b, "return") {
        Some(KeyCode::Enter)
    } else if chars_eq_str(v, a, b, "backspace") {
        Some(KeyCode::Backspace)
    } else if chars_eq_str(v, a, b, "left") {
        Some(KeyCode::Left)
    } else if chars_eq_str(v, a, b, "right") {
        Some(KeyCode::Right)
    } else if chars_eq_str(v, a, b, "up") {
        Some(KeyCode::Up)
    } else if chars_eq_str(v, a, b, "down") {
        Some(KeyCode::Down)
    } else if chars_eq_str(v, a, b, "home") {
        Some(KeyCode::Home)
    } else if chars_eq_str(v, a, b, "end") {
        Some(KeyCode::End)
    } else if chars_eq_str(v, a, b, "pageup") || chars_eq_str(v, a, b, "page_up") {
        Some(KeyCode::PageUp)
    } else if chars_eq_str(v, a, b, "pagedown") || chars_eq_str(v, a, b, "page_down") {
        Some(KeyCode::PageDown)
    } else if chars_eq_str(v, a, b, "delete") || chars_eq_str(v, a, b, "del") {
        Some(KeyCode::Delete)
    } else if chars_eq_str(v, a, b, "insert") || chars_eq_str(v, a, b, "ins") {
        Some(KeyCode::Insert)
    } else if b - a > 1 && v[a] == 'f' && utf8_len_at_most(v, a, b, 3) {
        assert(t.drop_first() =~= v@.subrange(a + 1, b as int));
        match parse_unsigned_range(v, a + 1, b, 255) {
            Some(n) => if n == 0 || n > 12 {
                None
            } else {
                Some(KeyCode::F(n as u8))
            },
            None => None,
        }
    } else if b - a == 1 {
        Some(KeyCode::Char(v[a]))
    } else {
        None
    }
}

/// The union of the modifiers that the first `k` spans name, or `None`
/// when one of them names none.
fn modifier_bits(v: &[char], spans: &Vec<Span>, k: usize) -> (r: Option<u8>)
    requires
        spans_within(v@, spans@),
        k <= spans@.len(),
    ensures
        r == spec_modifiers(spans_view(v@, spans@).take(k as int)),
{
    let ghost parts = spans_view(v@, spans@).take(k as int);
    let mut bits: u8 = 0;
    let mut i: usize = 0;
    assert(parts.take(0) =~= Seq::<Seq<char>>::empty());
    while i < k
        invariant
            spans_within(v@, spans@),
            k <= spans@.len(),
            parts == spans_view(v@, spans@).take(k as int),
            i <= k,
            spec_modifiers(parts.take(i as int)) == Some(bits),
        decreases k - i,
    {
        let sp = &spans[i];
        assert(parts[i as int] == v@.subrange(sp.start as int, sp.end as int));
        let m = parse_modifier(v, sp);
        assert(parts.take(i + 1).drop_last() =~= parts.take(i as int));
        assert(parts.take(i + 1).last() == parts[i as int]);
        match m {
            Some(b) => {
                bits = bits | b;
            },
            None => {
                assert(spec_modifiers(parts.take(i + 1)) is None);
                proof { lemma_modifiers_none_prefix(parts, i + 1); }
                return None;
            },
        }
        i = i + 1;
    }
    assert(parts.take(k as int) =~= parts);
    Some(bits)
}

/// Reads a trimmed, lowercased binding string.
pub fn parse_normalized(v: &[char]) -> (r: Option<KeyCombo>)
    ensures
        r == spec_parse_normalized(v@),
{
    let n = v.len();
    if n == 0 {
        return None;
    }
    if v[n - 1] == '-' {
        if n == 1 {
            return Some(KeyCombo { code: KeyCode::Char('-'), modifiers: KeyModifiers { bits: 0 } });
        }
        if v[n - 2] != '-' {
            return None;
        }
        let spans = split_spans(v, 0, n - 2, '-');
        let k = spans.len();
        assert(spans_view(v@, spans@).take(k as int) =~= spans_view(v@, spans@));
        return match modifier_bits(v, &spans, k) {
            Some(bits) => Some(KeyCombo { code: KeyCode::Char('-'), modifiers: KeyModifiers { bits } }),
            None => None,
        };
    }
    let spans = split_spans(v, 0, n, '-');
    assert(v@.subrange(0, n as int) =~= v@);
    let ghost parts = spans_view(v@, spans@);
    let k = spans.len() - 1;
    assert(parts.take(k as int) =~= parts.drop_last());
    match modifier_bits(v, &spans, k) {
        None => None,
        Some(bits) => {
            let sp = &spans[k];
            assert(parts.last() == v@.subrange(sp.start as int, sp.end as int));
            match parse_keycode(v, sp) {
                Some(code) => Some(KeyCombo { code, modifiers: KeyModifiers { bits } }),
                None => None,
            }
        },
    }
}

/// Once a prefix names an unknown modifier, so does every longer list.
pub proof fn lemma_modifiers_none_prefix(parts: Seq<Seq<char>>, i: int)
    requires
        0 <= i <= parts.len(),
        spec_modifiers(parts.take(i)) is None,
    ensures
        spec_modifiers(parts) is None,
    decreases parts.len() - i,
{
    if i < parts.len() {
        assert(parts.take(i + 1).drop_last() =~= parts.take(i));
        lemma_modifiers_none_prefix(parts, i + 1);
    } else {
        assert(parts.take(i) =~= parts);
    }
}

/// Parse a string like `ctrl-c`, `shift-tab`, `f1`, `q`, `+` into a key
/// combination; `None` when it names none.
pub fn parse(raw: &str) -> (r: Option<KeyCombo>)
    ensures
        r == spec_parse_key(raw@),
{
    let v = chars_of(raw);
    let (a, b) = trim_bounds(v.as_slice(), 0, v.len());
    assert(v@.subrange(0, v@.len() as int) =~= v@);
    let trimmed = string_of_range(v.as_slice(), a, b);
    let lowered = to_lowercase(trimmed.as_str());
    let w = chars_of(lowered.as_str());
    parse_normalized(w.as_slice())
}

/// Surrounding whitespace does not matter: a binding string names what its
/// trimmed form names.
pub proof fn law_parse_ignores_padding(raw: Seq<char>)
    ensures
        spec_parse_key(raw) == spec_parse_key(trim(raw)),
{
    lemma_trim_idempotent(raw);
}

/// Case does not matter: for ASCII text, a binding string names what its
/// lowercase form names. (Beyond ASCII, the lowercase mapping is Unicode's,
/// of which nothing is stated here.)
pub proof fn law_parse_ignores_case(raw: Seq<char>)
    requires
        is_ascii_text(raw),
    ensures
        spec_parse_key(raw) == spec_parse_key(ascii_lower(raw)),
{
    lemma_trim_idempotent(raw);
    lemma_trim_ascii_lower(raw);
    lemma_ascii_lower_idempotent(trim(raw));
    lemma_ascii_lower_idempotent(raw);
    let t = trim(raw);
    assert(is_ascii_text(t));
    assert(lowercase(t) == ascii_lower(t));
    lemma_trim_idempotent(ascii_lower(raw));
    assert(trim(ascii_lower(raw)) == ascii_lower(t));
    assert(is_ascii_text(ascii_lower(t)));
    assert(lowercase(ascii_lower(t)) == ascii_lower(ascii_lower(t)));
}

/// Case does not matter, for any text: two binding strings whose trimmed
/// forms have the same lowercase (such as `É` and `é`, or `Ctrl-Q` and
/// `ctrl-q`) name the same key.
pub proof fn law_parse_depends_only_on_lowercase(a: Seq<char>, b: Seq<char>)
    requires
        lowercase(trim(a)) == lowercase(trim(b)),
    ensures
        spec_parse_key(a) == spec_parse_key(b),
{
}

/// A modifier token is a non-empty word without `-`.
proof fn lemma_modifier_token(a: Seq<char>)
    requires
        spec_modifier(a) is Some,
    ensures
        a.len() > 0,
        forall|i: int| 0 <= i < a.len() ==> #[trigger] a[i] != '-',
{
    reveal_strlit("ctrl");
    reveal_strlit("control");
    reveal_strlit("alt");
    reveal_strlit("meta");
    reveal_strlit("shift");
}

/// `a-b-k` read as modifiers and key, for modifier tokens `a`, `b` and a
/// token `k` without `-`.
proof fn lemma_two_modifiers(a: Seq<char>, b: Seq<char>, k: Seq<char>)
    requires
        spec_modifier(a) is Some,
        spec_modifier(b) is Some,
        forall|i: int| 0 <= i < k.len() ==> #[trigger] k[i] != '-',
    ensures
        spec_parse_normalized(a + seq!['-'] + b + seq!['-'] + k) == (if k.len() == 0 {
            None
        } else {
            match spec_keycode(k) {
                Some(code) => Some(
                    KeyCombo {
                        code,
                        modifiers: KeyModifiers {
                            bits: (0u8 | spec_modifier(a).unwrap()) | spec_modifier(b).unwrap(),
                        },
                    },
                ),
                None => None,
            }
        }),
{
    lemma_modifier_token(a);
    lemma_modifier_token(b);
    let x = a + seq!['-'] + b;
    let s = x + seq!['-'] + k;
    lemma_split_on_no_sep(a, '-');
    lemma_split_on_no_sep(b, '-');
    lemma_split_on_no_sep(k, '-');
    lemma_split_on_concat(a, b, '-');
    lemma_split_on_concat(x, k, '-');
    let parts = split_on(s, '-');
    assert(parts =~= seq![a, b, k]);
    assert(parts.drop_last() =~= seq![a, b]);
    assert(parts.last() == k);
    assert(seq![a, b].drop_last() =~= seq![a]);
    assert(seq![a].drop_last() =~= Seq::<Seq<char>>::empty());
    assert(spec_modifiers(Seq::<Seq<char>>::empty()) == Some(0u8));
    assert(spec_modifiers(seq![a]) == Some(0u8 | spec_modifier(a).unwrap()));
    assert(spec_modifiers(seq![a, b]) == Some(
        (0u8 | spec_modifier(a).unwrap()) | spec_modifier(b).unwrap(),
    ));
    if k.len() == 0 {
        assert(s.last() == '-');
        assert(s[s.len() - 2] == b[b.len() - 1]);
    } else {
        assert(s.last() == k[k.len() - 1]);
        assert(s.last() != '-');
    }
}

/// `a-k` read as modifier and key, for a modifier token `a` and a token `k`
/// without `-`.
proof fn lemma_one_modifier(a: Seq<char>, k: Seq<char>)
    requires
        spec_modifier(a) is Some,
        forall|i: int| 0 <= i < k.len() ==> #[trigger] k[i] != '-',
    ensures
        spec_parse_normalized(a + seq!['-'] + k) == (if k.len() == 0 {
            None
        } else {
            match spec_keycode(k) {
                Some(code) => Some(
                    KeyCombo {
                        code,
                        modifiers: KeyModifiers { bits: 0u8 | spec_modifier(a).unwrap() },
                    },
                ),
                None => None,
            }
        }),
{
    lemma_modifier_token(a);
    let s = a + seq!['-'] + k;
    lemma_split_on_no_sep(a, '-');
    lemma_split_on_no_sep(k, '-');
    lemma_split_on_concat(a, k, '-');
    let parts = split_on(s, '-');
    assert(parts =~= seq![a, k]);
    assert(parts.drop_last() =~= seq![a]);
    assert(parts.last() == k);
    assert(seq![a].drop_last() =~= Seq::<Seq<char>>::empty());
    assert(spec_modifiers(Seq::<Seq<char>>::empty()) == Some(0u8));
    assert(spec_modifiers(seq![a]) == Some(0u8 | spec_modifier(a).unwrap()));
    if k.len() == 0 {
        assert(s.last() == '-');
        assert(s[s.len() - 2] == a[a.len() - 1]);
    } else {
        assert(s.last() == k[k.len() - 1]);
        assert(s.last() != '-');
    }
}

/// `a-b--` and `a--`: the key `-` after one or two modifier tokens.
proof fn lemma_dash_key(a: Seq<char>, b: Seq<char>)
    requires
        spec_modifier(a) is Some,
        spec_modifier(b) is Some,
    ensures
        spec_parse_normalized(a + seq!['-'] + b + seq!['-'] + seq!['-']) == Some(
            KeyCombo {
                code: KeyCode::Char('-'),
                modifiers: KeyModifiers {
                    bits: (0u8 | spec_modifier(a).unwrap()) | spec_modifier(b).unwrap(),
                },
            },
        ),
        spec_parse_normalized(a + seq!['-'] + seq!['-']) == Some(
            KeyCombo {
                code: KeyCode::Char('-'),
                modifiers: KeyModifiers { bits: 0u8 | spec_modifier(a).unwrap() },
            },
        ),
{
    lemma_modifier_token(a);
    lemma_modifier_token(b);
    let x = a + seq!['-'] + b;
    let s2 = x + seq!['-'] + seq!['-'];
    assert(s2.subrange(0, s2.len() - 2) =~= x);
    lemma_split_on_no_sep(a, '-');
    lemma_split_on_no_sep(b, '-');
    lemma_split_on_concat(a, b, '-');
    assert(split_on(x, '-') =~= seq![a, b]);
    assert(seq![a, b].drop_last() =~= seq![a]);
    assert(seq![a].drop_last() =~= Seq::<Seq<char>>::empty());
    assert(spec_modifiers(Seq::<Seq<char>>::empty()) == Some(0u8));
    assert(spec_modifiers(seq![a]) == Some(0u8 | spec_modifier(a).unwrap()));
    let s1 = a + seq!['-'] + seq!['-'];
    assert(s1.subrange(0, s1.len() - 2) =~= a);
}

/// The order and the repetition of modifiers do not matter: `a-b-k` names
/// what `b-a-k` names, and `a-a-k` what `a-k` names, for modifier tokens
/// `a`, `b` and any key token `k` (one without `-`, or the key `-` itself).
pub proof fn law_modifier_order_and_repetition(a: Seq<char>, b: Seq<char>, k: Seq<char>)
    requires
        spec_modifier(a) is Some,
        spec_modifier(b) is Some,
        (forall|i: int| 0 <= i < k.len() ==> #[trigger] k[i] != '-') || k == seq!['-'],
    ensures
        spec_parse_normalized(a + seq!['-'] + b + seq!['-'] + k) == spec_parse_normalized(
            b + seq!['-'] + a + seq!['-'] + k,
        ),
        spec_parse_normalized(a + seq!['-'] + a + seq!['-'] + k) == spec_parse_normalized(
            a + seq!['-'] + k,
        ),
{
    let ma = spec_modifier(a).unwrap();
    let mb = spec_modifier(b).unwrap();
    assert((0u8 | ma) | mb == (0u8 | mb) | ma) by (bit_vector);
    assert((0u8 | ma) | ma == 0u8 | ma) by (bit_vector);
    if k == seq!['-'] {
        lemma_dash_key(a, b);
        lemma_dash_key(b, a);
        lemma_dash_key(a, a);
    } else {
        lemma_two_modifiers(a, b, k);
        lemma_two_modifiers(b, a, k);
        lemma_two_modifiers(a, a, k);
        lemma_one_modifier(a, k);
    }
}

/// Each named key token names the key of that name: `up` is Up, `down` is
/// Down, `left` is Left, `right` is Right, `pageup` is PageUp, and so on,
/// with the aliases `escape`, `return`, `page_up`, `page_down`, `del` and
/// `ins`; `space` is the space character.
pub proof fn law_named_keys()
    ensures
        spec_keycode("esc"@) == Some(KeyCode::Esc),
        spec_keycode("escape"@) == Some(KeyCode::Esc),
        spec_keycode("tab"@) == Some(KeyCode::Tab),
        spec_keycode("space"@) == Some(KeyCode::Char(' ')),
        spec_keycode("enter"@) == Some(KeyCode::Enter),
        spec_keycode("return"@) == Some(KeyCode::Enter),
        spec_keycode("backspace"@) == Some(KeyCode::Backspace),
        spec_keycode("left"@) == Some(KeyCode::Left),
        spec_keycode("right"@) == Some(KeyCode::Right),
        spec_keycode("up"@) == Some(KeyCode::Up),
        spec_keycode("down"@) == Some(KeyCode::Down),
        spec_keycode("home"@) == Some(KeyCode::Home),
        spec_keycode("end"@) == Some(KeyCode::End),
        spec_keycode("pageup"@) == Some(KeyCode::PageUp),
        spec_keycode("page_up"@) == Some(KeyCode::PageUp),
        spec_keycode("pagedown"@) == Some(KeyCode::PageDown),
        spec_keycode("page_down"@) == Some(KeyCode::PageDown),
        spec_keycode("delete"@) == Some(KeyCode::Delete),
        spec_keycode("del"@) == Some(KeyCode::Delete),
        spec_keycode("insert"@) == Some(KeyCode::Insert),
        spec_keycode("ins"@) == Some(KeyCode::Insert),
{
    reveal_strlit("esc");
    reveal_strlit("escape");
    reveal_strlit("tab");
    reveal_strlit("space");
    reveal_strlit("enter");
    reveal_strlit("return");
    reveal_strlit("backspace");
    reveal_strlit("left");
    reveal_strlit("right");
    reveal_strlit("up");
    reveal_strlit("down");
    reveal_strlit("home");
    reveal_strlit("end");
    reveal_strlit("pageup");
    reveal_strlit("page_up");
    reveal_strlit("pagedown");
    reveal_strlit("page_down");
    reveal_strlit("delete");
    reveal_strlit("del");
    reveal_strlit("insert");
    reveal_strlit("ins");
    assert("esc"@.len() == 3);
    assert("escape"@.len() == 6);
    assert("tab"@.len() == 3);
    assert("space"@.len() == 5);
    assert("enter"@.len() == 5);
    assert("return"@.len() == 6);
    assert("backspace"@.len() == 9);
    assert("left"@.len() == 4);
    assert("right"@.len() == 5);
    assert("up"@.len() == 2);
    assert("down"@.len() == 4);
    assert("home"@.len() == 4);
    assert("end"@.len() == 3);
    assert("pageup"@.len() == 6);
    assert("page_up"@.len() == 7);
    assert("pagedown"@.len() == 8);
    assert("page_down"@.len() == 9);
    assert("delete"@.len() == 6);
    assert("del"@.len() == 3);
    assert("insert"@.len() == 6);
    assert("ins"@.len() == 3);
    assert("esc"@[0] != "tab"@[0]);
    assert("esc"@[1] != "end"@[1]);
    assert("esc"@[0] != "del"@[0]);
    assert("esc"@[0] != "ins"@[0]);
    assert("escape"@[0] != "return"@[0]);
    assert("escape"@[0] != "pageup"@[0]);
    assert("escape"@[0] != "delete"@[0]);
    assert("escape"@[0] != "insert"@[0]);
    assert("tab"@[0] != "esc"@[0]);
    assert("tab"@[0] != "end"@[0]);
    assert("tab"@[0] != "del"@[0]);
    assert("tab"@[0] != "ins"@[0]);
    assert("space"@[0] != "enter"@[0]);
    assert("space"@[0] != "right"@[0]);
    assert("enter"@[0] != "space"@[0]);
    assert("enter"@[0] != "right"@[0]);
    assert("return"@[0] != "escape"@[0]);
    assert("return"@[0] != "pageup"@[0]);
    assert("return"@[0] != "delete"@[0]);
    assert("return"@[0] != "insert"@[0]);
    assert("backspace"@[0] != "page_down"@[0]);
    assert("left"@[0] != "down"@[0]);
    assert("left"@[0] != "home"@[0]);
    assert("right"@[0] != "space"@[0]);
    assert("right"@[0] != "enter"@[0]);
    assert("down"@[0] != "left"@[0]);
    assert("down"@[0] != "home"@[0]);
    assert("home"@[0] != "left"@[0]);
    assert("home"@[0] != "down"@[0]);
    assert("end"@[1] != "esc"@[1]);
    assert("end"@[0] != "tab"@[0]);
    assert("end"@[0] != "del"@[0]);
    assert("end"@[0] != "ins"@[0]);
    assert("pageup"@[0] != "escape"@[0]);
    assert("pageup"@[0] != "return"@[0]);
    assert("pageup"@[0] != "delete"@[0]);
    assert("pageup"@[0] != "insert"@[0]);
    assert("page_down"@[0] != "backspace"@[0]);
    assert("delete"@[0] != "escape"@[0]);
    assert("delete"@[0] != "return"@[0]);
    assert("delete"@[0] != "pageup"@[0]);
    assert("delete"@[0] != "insert"@[0]);
    assert("del"@[0] != "esc"@[0]);
    assert("del"@[0] != "tab"@[0]);
    assert("del"@[0] != "end"@[0]);
    assert("del"@[0] != "ins"@[0]);
    assert("insert"@[0] != "escape"@[0]);
    assert("insert"@[0] != "return"@[0]);
    assert("insert"@[0] != "pageup"@[0]);
    assert("insert"@[0] != "delete"@[0]);
    assert("ins"@[0] != "esc"@[0]);
    assert("ins"@[0] != "tab"@[0]);
    assert("ins"@[0] != "end"@[0]);
    assert("ins"@[0] != "del"@[0]);
}

/// A key token on its own names its key with no modifier.
pub proof fn law_key_token_alone(k: Seq<char>)
    requires
        k.len() > 0,
        forall|i: int| 0 <= i < k.len() ==> #[trigger] k[i] != '-',
    ensures
        spec_parse_normalized(k) == (match spec_keycode(k) {
            Some(code) => Some(KeyCombo { code, modifiers: KeyModifiers { bits: 0 } }),
            None => None,
        }),
{
    lemma_split_on_no_sep(k, '-');
    assert(split_on(k, '-').drop_last() =~= Seq::<Seq<char>>::empty());
    assert(spec_modifiers(Seq::<Seq<char>>::empty()) == Some(0u8));
    assert(k.last() == k[k.len() - 1]);
}

/// A modifier in front of a key token changes only the modifiers: `a-k`
/// names the key that `k` names, with the modifier bit that `a` names.
pub proof fn law_modifier_keeps_key(a: Seq<char>, k: Seq<char>)
    requires
        spec_modifier(a) is Some,
        k.len() > 0,
        forall|i: int| 0 <= i < k.len() ==> #[trigger] k[i] != '-',
    ensures
        spec_parse_normalized(a + seq!['-'] + k) == (match spec_parse_normalized(k) {
            Some(combo) => Some(KeyCombo {
                code: combo.code,
                modifiers: KeyModifiers { bits: spec_modifier(a).unwrap() },
            }),
            None => None,
        }),
{
    lemma_one_modifier(a, k);
    law_key_token_alone(k);
    let m = spec_modifier(a).unwrap();
    assert(0u8 | m == m) by (bit_vector);
}

/// A single character names itself as a key, whatever it is.
pub proof fn law_single_char_key(ch: char)
    ensures
        spec_keycode(seq![ch]) == Some(KeyCode::Char(ch)),
{
    reveal_strlit("esc");
    reveal_strlit("escape");
    reveal_strlit("tab");
    reveal_strlit("space");
    reveal_strlit("enter");
    reveal_strlit("return");
    reveal_strlit("backspace");
    reveal_strlit("left");
    reveal_strlit("right");
    reveal_strlit("up");
    reveal_strlit("down");
    reveal_strlit("home");
    reveal_strlit("end");
    reveal_strlit("pageup");
    reveal_strlit("page_up");
    reveal_strlit("pagedown");
    reveal_strlit("page_down");
    reveal_strlit("delete");
    reveal_strlit("del");
    reveal_strlit("insert");
    reveal_strlit("ins");
    assert(seq![ch].len() == 1);
}

/// ASCII text takes one byte a character.
proof fn lemma_utf8_len_ascii(s: Seq<char>)
    requires
        forall|i: int| 0 <= i < s.len() ==> (#[trigger] s[i] as u32) < 0x80,
    ensures
        utf8_len(s) == s.len(),
    decreases s.len(),
{
    if s.len() > 0 {
        let init = s.drop_last();
        assert forall|i: int| 0 <= i < init.len() implies (#[trigger] init[i] as u32) < 0x80 by {
            assert(init[i] == s[i]);
        }
        lemma_utf8_len_ascii(init);
    }
}

/// `f` followed by a number from 1 to 12 names that function key; with
/// any other number of at most two digits it names no key.
pub proof fn law_function_keys(n: nat)
    requires
        n < 100,
    ensures
        1 <= n <= 12 ==> spec_keycode(seq!['f'] + decimal(n)) == Some(KeyCode::F(n as u8)),
        (n == 0 || n > 12) ==> spec_keycode(seq!['f'] + decimal(n)) is None,
{
    let t = seq!['f'] + decimal(n);
    lemma_decimal_reads_back(n);
    let d = decimal(n);
    if n >= 10 {
        assert(decimal(n / 10) == seq![digit_char((n / 10) as int)]);
        assert(d =~= seq![digit_char((n / 10) as int), digit_char((n % 10) as int)]);
    }
    assert(d.len() <= 2);
    assert(t.drop_first() =~= d);
    assert(d[0] != '+');
    assert forall|i: int| 0 <= i < t.len() implies (#[trigger] t[i] as u32) < 0x80 by {
        if i > 0 {
            assert(t[i] == d[i - 1]);
        }
    }
    lemma_utf8_len_ascii(t);
    reveal_strlit("esc");
    reveal_strlit("escape");
    reveal_strlit("tab");
    reveal_strlit("space");
    reveal_strlit("enter");
    reveal_strlit("return");
    reveal_strlit("backspace");
    reveal_strlit("left");
    reveal_strlit("right");
    reveal_strlit("up");
    reveal_strlit("down");
    reveal_strlit("home");
    reveal_strlit("end");
    reveal_strlit("pageup");
    reveal_strlit("page_up");
    reveal_strlit("pagedown");
    reveal_strlit("page_down");
    reveal_strlit("delete");
    reveal_strlit("del");
    reveal_strlit("insert");
    reveal_strlit("ins");
    assert(t[0] == 'f');
    assert(t.len() >= 2);
}

} // verus!
