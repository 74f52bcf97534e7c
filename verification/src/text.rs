//! Character-level text helpers shared by the parsers and formatters.
//!
//! Strings are modelled by their view, a `Seq<char>`. The functions here work
//! on `Vec<char>` copies of the input so that every step can be stated over
//! that sequence.

use vstd::prelude::*;

verus! {

/// `char::is_whitespace`: the Unicode `White_Space` property.
pub open spec fn is_ws(c: char) -> bool {
    let u = c as u32;
    ||| 0x09 <= u <= 0x0d
    ||| u == 0x20
    ||| u == 0x85
    ||| u == 0xa0
    ||| u == 0x1680
    ||| 0x2000 <= u <= 0x200a
    ||| u == 0x2028
    ||| u == 0x2029
    ||| u == 0x202f
    ||| u == 0x205f
    ||| u == 0x3000
}

/// Exec counterpart of [`is_ws`].
pub fn is_whitespace(c: char) -> (r: bool)
    ensures
        r == is_ws(c),
{
    let u = c as u32;
    (0x09 <= u && u <= 0x0d) || u == 0x20 || u == 0x85 || u == 0xa0 || u == 0x1680 || (0x2000
        <= u && u <= 0x200a) || u == 0x2028 || u == 0x2029 || u == 0x202f || u == 0x205f || u
        == 0x3000
}

/// What `str::trim_start` leaves of `s`.
pub open spec fn trim_start(s: Seq<char>) -> Seq<char>
    decreases s.len(),
{
    if s.len() > 0 && is_ws(s[0]) {
        trim_start(s.drop_first())
    } else {
        s
    }
}

/// What `str::trim_end` leaves of `s`.
pub open spec fn trim_end(s: Seq<char>) -> Seq<char>
    decreases s.len(),
{
    if s.len() > 0 && is_ws(s.last()) {
        trim_end(s.drop_last())
    } else {
        s
    }
}

/// What `str::trim` leaves of `s`.
pub open spec fn trim(s: Seq<char>) -> Seq<char> {
    trim_end(trim_start(s))
}

/// The characters of `s`, in order.
pub fn chars_of(s: &str) -> (r: Vec<char>)
    ensures
        r@ == s@,
{
    let n = s.unicode_len();
    let mut v: Vec<char> = Vec::new();
    let mut i: usize = 0;
    while i < n
        invariant
            n == s@.len(),
            i <= n,
            v@ == s@.subrange(0, i as int),
        decreases n - i,
    {
        let c = s.get_char(i);
        v.push(c);
        i = i + 1;
        assert(v@ =~= s@.subrange(0, i as int));
    }
    assert(v@ =~= s@);
    v
}

/// `String::push`.
#[verifier::external_body]
pub(crate) fn push_char(s: &mut String, c: char)
    ensures
        final(s)@ == old(s)@.push(c),
{
    s.push(c);
}

/// Appends `t` to `s`.
pub fn push_str(s: &mut String, t: &str)
    ensures
        final(s)@ == old(s)@ + t@,
{
    s.append(t);
}

/// A `String` holding the characters of `v[from..to]`.
pub fn string_of_range(v: &[char], from: usize, to: usize) -> (r: String)
    requires
        from <= to <= v@.len(),
    ensures
        r@ == v@.subrange(from as int, to as int),
{
    let mut out = String::new();
    let mut i = from;
    while i < to
        invariant
            from <= i <= to <= v@.len(),
            out@ == v@.subrange(from as int, i as int),
        decreases to - i,
    {
        push_char(&mut out, v[i]);
        i = i + 1;
        assert(out@ =~= v@.subrange(from as int, i as int));
    }
    out
}

/// End of `v[from..to]` once trailing whitespace is removed.
pub fn trim_end_bound(v: &[char], from: usize, to: usize) -> (k: usize)
    requires
        from <= to <= v@.len(),
    ensures
        from <= k <= to,
        trim_end(v@.subrange(from as int, to as int)) == v@.subrange(from as int, k as int),
{
    let mut k = to;
    while k > from && is_whitespace(v[k - 1])
        invariant
            from <= k <= to <= v@.len(),
            trim_end(v@.subrange(from as int, to as int)) == trim_end(
                v@.subrange(from as int, k as int),
            ),
        decreases k,
    {
        assert(v@.subrange(from as int, k as int).drop_last() =~= v@.subrange(
            from as int,
            k - 1,
        ));
        k = k - 1;
    }
    k
}

/// Bounds `(a, b)` with `v[a..b]` equal to `trim(v[from..to])`.
pub fn trim_bounds(v: &[char], from: usize, to: usize) -> (r: (usize, usize))
    requires
        from <= to <= v@.len(),
    ensures
        from <= r.0 <= r.1 <= to,
        trim(v@.subrange(from as int, to as int)) == v@.subrange(r.0 as int, r.1 as int),
{
    let ghost s = v@.subrange(from as int, to as int);
    let a = skip_ws_from_bounded(v, from, to);
    let b = trim_end_bound(v, a, to);
    (a, b)
}

/// Index of the first character of `v[from..to]` that is not whitespace,
/// or `to`.
pub fn skip_ws_from_bounded(v: &[char], from: usize, to: usize) -> (k: usize)
    requires
        from <= to <= v@.len(),
    ensures
        from <= k <= to,
        trim_start(v@.subrange(from as int, to as int)) == v@.subrange(k as int, to as int),
{
    let mut k = from;
    while k < to && is_whitespace(v[k])
        invariant
            from <= k <= to <= v@.len(),
            trim_start(v@.subrange(from as int, to as int)) == trim_start(
                v@.subrange(k as int, to as int),
            ),
        decreases to - k,
    {
        assert(v@.subrange(k as int, to as int).drop_first() =~= v@.subrange(
            k + 1,
            to as int,
        ));
        k = k + 1;
    }
    k
}

/// The character of the decimal digit `d`.
pub open spec fn digit_char(d: int) -> char {
    (d + 48) as char
}

/// Whether `c` is an ASCII decimal digit.
pub open spec fn is_digit(c: char) -> bool {
    48 <= (c as u32) <= 57
}

/// The value of the decimal digit `c`.
pub open spec fn digit_value(c: char) -> nat {
    ((c as u32) - 48) as nat
}

/// Base-ten rendering of `n`, without leading zeros.
pub open spec fn decimal(n: nat) -> Seq<char>
    decreases n,
{
    if n < 10 {
        seq![digit_char(n as int)]
    } else {
        decimal(n / 10).push(digit_char((n % 10) as int))
    }
}

/// `n` rendered with at least two digits, as `{:02}` does.
pub open spec fn decimal2(n: nat) -> Seq<char> {
    if n < 10 {
        seq!['0', digit_char(n as int)]
    } else {
        decimal(n)
    }
}

/// Appends the digit `d` to `out`.
pub fn push_digit(out: &mut String, d: u64)
    requires
        d < 10,
    ensures
        final(out)@ == old(out)@.push(digit_char(d as int)),
{
    let c = ((d as u8) + 48) as char;
    push_char(out, c);
}

/// Appends the decimal rendering of `n` to `out`.
pub fn push_decimal(out: &mut String, n: u64)
    ensures
        final(out)@ == old(out)@ + decimal(n as nat),
    decreases n,
{
    if n >= 10 {
        push_decimal(out, n / 10);
        push_digit(out, n % 10);
        assert(final(out)@ =~= old(out)@ + decimal(n as nat));
    } else {
        push_digit(out, n);
        assert(final(out)@ =~= old(out)@ + decimal(n as nat));
    }
}

/// Appends `n` rendered with at least two digits to `out`.
pub fn push_decimal2(out: &mut String, n: u64)
    ensures
        final(out)@ == old(out)@ + decimal2(n as nat),
{
    if n < 10 {
        push_char(out, '0');
        push_digit(out, n);
        assert(final(out)@ =~= old(out)@ + decimal2(n as nat));
    } else {
        push_decimal(out, n);
    }
}

/// Value of a sequence of decimal digits.
pub open spec fn digits_value(s: Seq<char>) -> nat
    decreases s.len(),
{
    if s.len() == 0 {
        0
    } else {
        digits_value(s.drop_last()) * 10 + digit_value(s.last())
    }
}

/// Whether every character of `s` is a decimal digit.
pub open spec fn all_digits(s: Seq<char>) -> bool {
    forall|i: int| 0 <= i < s.len() ==> is_digit(#[trigger] s[i])
}

/// What `from_str` of an unsigned integer type whose largest value is `max`
/// accepts: an optional `+`, then at least one decimal digit, with a value
/// of at most `max`.
pub open spec fn parse_unsigned(s: Seq<char>, max: nat) -> Option<nat> {
    let body = if s.len() > 0 && s[0] == '+' {
        s.drop_first()
    } else {
        s
    };
    if body.len() > 0 && all_digits(body) && digits_value(body) <= max {
        Some(digits_value(body))
    } else {
        None
    }
}

/// A digit string's value bounds the value of each of its prefixes.
pub proof fn lemma_digits_prefix_le(s: Seq<char>, i: int)
    requires
        0 <= i <= s.len(),
    ensures
        digits_value(s.subrange(0, i)) <= digits_value(s),
    decreases s.len() - i,
{
    if i < s.len() {
        lemma_digits_prefix_le(s, i + 1);
        assert(s.subrange(0, i + 1).drop_last() =~= s.subrange(0, i));
    } else {
        assert(s.subrange(0, i) =~= s);
    }
}

/// The rendering of `n` reads back as `n`: a non-empty digit string
/// whose value is `n`, with no leading zero unless `n` is zero.
pub proof fn lemma_decimal_reads_back(n: nat)
    ensures
        decimal(n).len() >= 1,
        all_digits(decimal(n)),
        digits_value(decimal(n)) == n,
        n > 0 ==> decimal(n)[0] != '0',
        n == 0 ==> decimal(n) == seq!['0'],
    decreases n,
{
    let d = decimal(n);
    let u = (n % 10) as int;
    assert(digit_value(digit_char(u)) == u);
    if n >= 10 {
        lemma_decimal_reads_back(n / 10);
        assert(d.drop_last() =~= decimal(n / 10));
        assert(d.last() == digit_char(u));
        assert(d[0] == decimal(n / 10)[0]);
        assert(n == (n / 10) * 10 + n % 10);
        assert(digits_value(d) == digits_value(d.drop_last()) * 10 + digit_value(d.last()));
        assert(digits_value(d) == (n / 10) * 10 + u);
    } else {
        assert(d.drop_last() =~= Seq::<char>::empty());
        assert(d.last() == digit_char(u));
        assert(digits_value(d) == digits_value(d.drop_last()) * 10 + digit_value(d.last()));
        assert(digits_value(Seq::<char>::empty()) == 0);
    }
}

/// Below one hundred, the two-digit rendering is the tens digit and then
/// the units digit.
pub proof fn lemma_decimal2_digits(n: nat)
    requires
        n < 100,
    ensures
        decimal2(n) == seq![digit_char((n / 10) as int), digit_char((n % 10) as int)],
{
    if n >= 10 {
        assert(decimal(n / 10) == seq![digit_char((n / 10) as int)]);
        assert(decimal2(n) =~= seq![digit_char((n / 10) as int), digit_char((n % 10) as int)]);
    }
}

/// Parses `v[from..to]` as an unsigned integer of at most `max`, as
/// `from_str` of an unsigned integer type does.
pub fn parse_unsigned_range(v: &[char], from: usize, to: usize, max: u64) -> (r: Option<u64>)
    requires
        from <= to <= v@.len(),
        max <= u32::MAX,
    ensures
        r matches Some(n) ==> parse_unsigned(v@.subrange(from as int, to as int), max as nat)
            == Some(n as nat),
        r is None ==> parse_unsigned(v@.subrange(from as int, to as int), max as nat) is None,
{
    let ghost s = v@.subrange(from as int, to as int);
    let mut start = from;
    if from < to && v[from] == '+' {
        start = from + 1;
        assert(s.drop_first() =~= v@.subrange(start as int, to as int));
    } else {
        assert(s =~= v@.subrange(start as int, to as int));
    }
    let ghost body = v@.subrange(start as int, to as int);
    assert(body == (if s.len() > 0 && s[0] == '+' {
        s.drop_first()
    } else {
        s
    }));
    if start == to {
        return None;
    }
    let mut acc: u64 = 0;
    let mut i = start;
    while i < to
        invariant
            from <= start <= i <= to <= v@.len(),
            body == v@.subrange(start as int, to as int),
            s == v@.subrange(from as int, to as int),
            body == (if s.len() > 0 && s[0] == '+' {
                s.drop_first()
            } else {
                s
            }),
            max <= u32::MAX,
            acc <= max,
            forall|j: int| start <= j < i ==> is_digit(#[trigger] v@[j]),
            acc == digits_value(v@.subrange(start as int, i as int)),
        decreases to - i,
    {
        let c = v[i];
        let u = c as u32;
        if u < 48 || u > 57 {
            assert(body[i - start] == c);
            assert(!is_digit(body[i - start]));
            return None;
        }
        let d = (u - 48) as u64;
        assert(v@.subrange(start as int, i + 1).drop_last() =~= v@.subrange(
            start as int,
            i as int,
        ));
        let next = acc * 10 + d;
        if next > max {
            proof {
                if all_digits(body) {
                    assert(v@.subrange(start as int, i + 1) =~= body.subrange(0, i + 1 - start));
                    lemma_digits_prefix_le(body, i + 1 - start);
                }
            }
            return None;
        }
        acc = next;
        i = i + 1;
    }
    assert(v@.subrange(start as int, i as int) =~= body);
    assert(all_digits(body));
    Some(acc)
}

/// Whether `a` and `b` hold the same characters.
pub fn chars_eq_str(a: &[char], from: usize, to: usize, b: &str) -> (r: bool)
    requires
        from <= to <= a@.len(),
    ensures
        r == (a@.subrange(from as int, to as int) == b@),
{
    let n = b.unicode_len();
    if to - from != n {
        return false;
    }
    let mut i: usize = 0;
    while i < n
        invariant
            from <= to <= a@.len(),
            to - from == n == b@.len(),
            i <= n,
            forall|j: int| 0 <= j < i ==> a@[from + j] == b@[j],
        decreases n - i,
    {
        if a[from + i] != b.get_char(i) {
            assert(a@.subrange(from as int, to as int)[i as int] != b@[i as int]);
            return false;
        }
        i = i + 1;
    }
    assert(a@.subrange(from as int, to as int) =~= b@);
    true
}

/// Whether `v[from..to]` begins with the characters of `p`.
pub fn chars_start_with(v: &[char], from: usize, to: usize, p: &str) -> (r: bool)
    requires
        from <= to <= v@.len(),
    ensures
        r == (p@.len() <= to - from && v@.subrange(from as int, from + p@.len()) == p@),
{
    let n = p.unicode_len();
    if n > to - from {
        return false;
    }
    chars_eq_str(v, from, from + n, p)
}

/// The pieces of `s` between occurrences of `sep`, as `str::split` with a
/// `char` pattern yields them (always at least one piece).
pub open spec fn split_on(s: Seq<char>, sep: char) -> Seq<Seq<char>>
    decreases s.len(),
{
    if s.len() == 0 {
        seq![Seq::<char>::empty()]
    } else {
        let init = split_on(s.drop_last(), sep);
        if s.last() == sep {
            init.push(Seq::<char>::empty())
        } else {
            init.update(init.len() - 1, init.last().push(s.last()))
        }
    }
}

/// `split_on` never yields an empty list of pieces.
pub proof fn lemma_split_on_nonempty(s: Seq<char>, sep: char)
    ensures
        split_on(s, sep).len() >= 1,
    decreases s.len(),
{
    if s.len() > 0 {
        lemma_split_on_nonempty(s.drop_last(), sep);
    }
}

/// Text without the separator is one piece.
pub proof fn lemma_split_on_no_sep(s: Seq<char>, sep: char)
    requires
        forall|i: int| 0 <= i < s.len() ==> #[trigger] s[i] != sep,
    ensures
        split_on(s, sep) == seq![s],
    decreases s.len(),
{
    if s.len() > 0 {
        let init = s.drop_last();
        assert forall|i: int| 0 <= i < init.len() implies #[trigger] init[i] != sep by {
            assert(init[i] == s[i]);
        }
        lemma_split_on_no_sep(init, sep);
        assert(init.push(s.last()) =~= s);
        assert(seq![init].update(0, init.push(s.last())) =~= seq![s]);
    } else {
        assert(s =~= Seq::<char>::empty());
    }
}

/// Joining two texts with a separator joins their pieces.
pub proof fn lemma_split_on_concat(x: Seq<char>, y: Seq<char>, sep: char)
    ensures
        split_on(x + seq![sep] + y, sep) == split_on(x, sep) + split_on(y, sep),
    decreases y.len(),
{
    let xs = x + seq![sep];
    if y.len() == 0 {
        assert(xs + y =~= xs);
        assert(xs.drop_last() =~= x);
        assert(split_on(x, sep).push(Seq::<char>::empty()) =~= split_on(x, sep) + seq![
            Seq::<char>::empty(),
        ]);
    } else {
        let y0 = y.drop_last();
        lemma_split_on_concat(x, y0, sep);
        lemma_split_on_nonempty(y0, sep);
        assert((xs + y).drop_last() =~= xs + y0);
        assert((xs + y).last() == y.last());
        let a = split_on(x, sep);
        let b = split_on(y0, sep);
        if y.last() == sep {
            assert((a + b).push(Seq::<char>::empty()) =~= a + b.push(Seq::<char>::empty()));
        } else {
            assert((a + b).update((a + b).len() - 1, (a + b).last().push(y.last())) =~= a
                + b.update(b.len() - 1, b.last().push(y.last())));
        }
    }
}

/// A piece as a range of the source: `v[start..end]`.
pub struct Span {
    pub start: usize,
    pub end: usize,
}

/// The sequences that the spans select from `v`.
pub open spec fn spans_view(v: Seq<char>, spans: Seq<Span>) -> Seq<Seq<char>> {
    spans.map_values(|sp: Span| v.subrange(sp.start as int, sp.end as int))
}

/// Whether every span lies within `v` and is ordered.
pub open spec fn spans_within(v: Seq<char>, spans: Seq<Span>) -> bool {
    forall|i: int|
        0 <= i < spans.len() ==> #[trigger] spans[i].start <= spans[i].end <= v.len()
}

/// The pieces of `v[from..to]` between occurrences of `sep`.
pub fn split_spans(v: &[char], from: usize, to: usize, sep: char) -> (r: Vec<Span>)
    requires
        from <= to <= v@.len(),
    ensures
        spans_within(v@, r@),
        spans_view(v@, r@) == split_on(v@.subrange(from as int, to as int), sep),
        r@.len() >= 1,
{
    let mut parts: Vec<Span> = Vec::new();
    let mut cur = from;
    let mut i = from;
    assert(v@.subrange(from as int, i as int) =~= Seq::<char>::empty());
    assert(spans_view(v@, parts@) =~= Seq::<Seq<char>>::empty());
    assert(spans_view(v@, parts@).push(v@.subrange(cur as int, i as int)) =~= split_on(
        v@.subrange(from as int, i as int),
        sep,
    ));
    while i < to
        invariant
            from <= cur <= i <= to <= v@.len(),
            spans_within(v@, parts@),
            spans_view(v@, parts@).push(v@.subrange(cur as int, i as int)) == split_on(
                v@.subrange(from as int, i as int),
                sep,
            ),
        decreases to - i,
    {
        let ghost prev = v@.subrange(from as int, i as int);
        let ghost next = v@.subrange(from as int, i + 1);
        let ghost old_view = spans_view(v@, parts@);
        let ghost old_piece = v@.subrange(cur as int, i as int);
        assert(next.drop_last() =~= prev);
        assert(next.last() == v@[i as int]);
        assert(next.len() > 0);
        if v[i] == sep {
            parts.push(Span { start: cur, end: i });
            cur = i + 1;
            assert(spans_view(v@, parts@) =~= old_view.push(old_piece));
            assert(split_on(next, sep) == split_on(prev, sep).push(Seq::<char>::empty()));
            assert(v@.subrange(cur as int, i + 1) =~= Seq::<char>::empty());
            assert(spans_view(v@, parts@).push(v@.subrange(cur as int, i + 1)) =~= split_on(
                next,
                sep,
            ));
        } else {
            let ghost init = split_on(prev, sep);
            assert(init == old_view.push(old_piece));
            assert(split_on(next, sep) == init.update(
                init.len() - 1,
                init.last().push(v@[i as int]),
            ));
            assert(v@.subrange(cur as int, i + 1) =~= old_piece.push(v@[i as int]));
            assert(spans_view(v@, parts@).push(v@.subrange(cur as int, i + 1)) =~= split_on(
                next,
                sep,
            ));
        }
        i = i + 1;
    }
    parts.push(Span { start: cur, end: to });
    assert(spans_view(v@, parts@) =~= spans_view(v@, parts@.drop_last()).push(
        v@.subrange(cur as int, to as int),
    ));
    parts
}

/// `s` without one trailing carriage return.
pub open spec fn strip_cr(s: Seq<char>) -> Seq<char> {
    if s.len() > 0 && s.last() == '\r' {
        s.drop_last()
    } else {
        s
    }
}

/// The lines of `s`, as `str::lines` yields them: split at `\n`, a `\r`
/// before a `\n` removed, and no final empty line after a trailing `\n`.
pub open spec fn lines(s: Seq<char>) -> Seq<Seq<char>> {
    let parts = split_on(s, '\n');
    let k = parts.len() - 1;
    let n = if parts.last().len() == 0 {
        k
    } else {
        k + 1
    };
    Seq::new(
        n as nat,
        |i: int|
            if i < k {
                strip_cr(parts[i])
            } else {
                parts[i]
            },
    )
}

/// The lines of `v`, as ranges of `v`.
pub fn line_spans(v: &[char]) -> (r: Vec<Span>)
    ensures
        spans_within(v@, r@),
        spans_view(v@, r@) == lines(v@),
{
    let parts = split_spans(v, 0, v.len(), '\n');
    assert(v@.subrange(0, v@.len() as int) =~= v@);
    let ghost pv = split_on(v@, '\n');
    let k = parts.len() - 1;
    let last = &parts[k];
    let n = if last.start == last.end {
        k
    } else {
        k + 1
    };
    let mut out: Vec<Span> = Vec::new();
    let mut i: usize = 0;
    while i < n
        invariant
            n <= parts@.len(),
            k == parts@.len() - 1,
            spans_within(v@, parts@),
            spans_view(v@, parts@) == pv,
            spans_within(v@, out@),
            i <= n,
            out@.len() == i,
            forall|j: int|
                0 <= j < i ==> #[trigger] spans_view(v@, out@)[j] == (if j < k {
                    strip_cr(pv[j])
                } else {
                    pv[j]
                }),
        decreases n - i,
    {
        let sp = &parts[i];
        let ghost piece = v@.subrange(sp.start as int, sp.end as int);
        assert(pv[i as int] == piece);
        let mut end = sp.end;
        if i < k && sp.end > sp.start && v[sp.end - 1] == '\r' {
            end = sp.end - 1;
            assert(v@.subrange(sp.start as int, end as int) =~= piece.drop_last());
        } else {
            assert(i < k ==> strip_cr(piece) == piece);
        }
        let ghost old_out = out@;
        out.push(Span { start: sp.start, end: end });
        assert(spans_view(v@, out@) =~= spans_view(v@, old_out).push(
            v@.subrange(sp.start as int, end as int),
        ));
        i = i + 1;
    }
    assert(spans_view(v@, out@) =~= lines(v@));
    out
}

/// Whether `needle` occurs in `hay` starting at index `p`.
pub open spec fn occurs_at(hay: Seq<char>, needle: Seq<char>, p: int) -> bool {
    0 <= p && p + needle.len() <= hay.len() && hay.subrange(p, p + needle.len()) == needle
}

/// Whether `needle` occurs in `hay` as a contiguous run.
pub open spec fn contains_seq(hay: Seq<char>, needle: Seq<char>) -> bool {
    exists|p: int| #[trigger] occurs_at(hay, needle, p)
}

/// Whether `needle` occurs in `hay`, as `str::contains` decides it.
pub fn contains_chars(hay: &[char], needle: &[char]) -> (r: bool)
    ensures
        r == contains_seq(hay@, needle@),
{
    let n = hay.len();
    let m = needle.len();
    if m > n {
        assert(!contains_seq(hay@, needle@));
        return false;
    }
    let mut i: usize = 0;
    while i <= n - m
        invariant
            n == hay@.len(),
            m == needle@.len(),
            m <= n,
            i <= n - m + 1,
            forall|p: int| 0 <= p < i ==> !#[trigger] occurs_at(hay@, needle@, p),
        decreases n - i,
    {
        let mut j: usize = 0;
        let mut same = true;
        while j < m
            invariant
                n == hay@.len(),
                m == needle@.len(),
                i + m <= n,
                j <= m,
                same == (forall|q: int| 0 <= q < j ==> hay@[i + q] == needle@[q]),
            decreases m - j,
        {
            if hay[i + j] != needle[j] {
                same = false;
            }
            j = j + 1;
        }
        if same {
            assert(hay@.subrange(i as int, i + m) =~= needle@);
            assert(occurs_at(hay@, needle@, i as int));
            return true;
        }
        assert(hay@.subrange(i as int, i + m)[0] == hay@[i as int + 0]);
        assert(exists|q: int| 0 <= q < m && hay@[i + q] != needle@[q]);
        let ghost q = choose|q: int| 0 <= q < m && hay@[i + q] != needle@[q];
        assert(hay@.subrange(i as int, i + m)[q] != needle@[q]);
        i = i + 1;
    }
    assert forall|p: int| !#[trigger] occurs_at(hay@, needle@, p) by {
        if 0 <= p && p + m <= n {
            assert(p < i);
        }
    }
    false
}

/// What `str::to_lowercase` returns for text that is not all ASCII; its
/// case mapping tables are Unicode's and are not restated here.
pub uninterp spec fn str_lowercase(s: Seq<char>) -> Seq<char>;

/// Whether every character of `s` is ASCII.
pub open spec fn is_ascii_text(s: Seq<char>) -> bool {
    forall|i: int| 0 <= i < s.len() ==> (#[trigger] s[i] as u32) < 128
}

/// The ASCII lowercase of `c`: `A`..`Z` become `a`..`z`, anything else
/// stays.
pub open spec fn ascii_lower_char(c: char) -> char {
    if 65 <= (c as u32) <= 90 {
        ((c as u32) + 32) as char
    } else {
        c
    }
}

/// `s` with every character taken to its ASCII lowercase.
pub open spec fn ascii_lower(s: Seq<char>) -> Seq<char> {
    s.map_values(|c: char| ascii_lower_char(c))
}

/// The lowercase of `s` as `str::to_lowercase` gives it: for ASCII text,
/// each of `A`..`Z` becomes its small letter and nothing else changes (the
/// Unicode lowercase mapping of ASCII); for other text, the Unicode mapping.
pub open spec fn lowercase(s: Seq<char>) -> Seq<char> {
    if is_ascii_text(s) {
        ascii_lower(s)
    } else {
        str_lowercase(s)
    }
}

/// `str::to_lowercase`: the lowercase mapping of `s`, a function of `s`
/// alone; on ASCII text it maps `A`..`Z` to `a`..`z` and keeps the rest.
/// Of other text nothing more than that is claimed.
#[verifier::external_body]
pub(crate) fn to_lowercase(s: &str) -> (r: String)
    ensures
        is_ascii_text(s@) ==> r@ == ascii_lower(s@),
        !is_ascii_text(s@) ==> r@ == str_lowercase(s@),
{
    s.to_lowercase()
}

/// Lowercasing keeps what is whitespace, so it commutes with trimming.
pub proof fn lemma_trim_ascii_lower(s: Seq<char>)
    ensures
        trim_start(ascii_lower(s)) == ascii_lower(trim_start(s)),
        trim_end(ascii_lower(s)) == ascii_lower(trim_end(s)),
        trim(ascii_lower(s)) == ascii_lower(trim(s)),
    decreases s.len(),
{
    if s.len() > 0 {
        lemma_trim_ascii_lower(s.drop_first());
        lemma_trim_ascii_lower(s.drop_last());
        assert(ascii_lower(s).drop_first() =~= ascii_lower(s.drop_first()));
        assert(ascii_lower(s).drop_last() =~= ascii_lower(s.drop_last()));
        assert(ascii_lower(s)[0] == ascii_lower_char(s[0]));
        assert(ascii_lower(s).last() == ascii_lower_char(s.last()));
    }
    lemma_trim_start_lower(trim_start(s));
}

/// Helper of [`lemma_trim_ascii_lower`] for the inner trim.
proof fn lemma_trim_start_lower(t: Seq<char>)
    ensures
        trim_end(ascii_lower(t)) == ascii_lower(trim_end(t)),
    decreases t.len(),
{
    if t.len() > 0 {
        lemma_trim_start_lower(t.drop_last());
        assert(ascii_lower(t).drop_last() =~= ascii_lower(t.drop_last()));
        assert(ascii_lower(t).last() == ascii_lower_char(t.last()));
    }
}

/// ASCII lowercasing twice is lowercasing once, and keeps text ASCII.
pub proof fn lemma_ascii_lower_idempotent(s: Seq<char>)
    ensures
        ascii_lower(ascii_lower(s)) == ascii_lower(s),
        is_ascii_text(s) ==> is_ascii_text(ascii_lower(s)),
{
    assert(ascii_lower(ascii_lower(s)) =~= ascii_lower(s));
}

/// What `trim_start` leaves is a suffix, and it starts with no whitespace.
pub proof fn lemma_trim_start_suffix(s: Seq<char>)
    ensures
        trim_start(s).len() <= s.len(),
        trim_start(s) == s.subrange(s.len() - trim_start(s).len(), s.len() as int),
        trim_start(s).len() > 0 ==> !is_ws(trim_start(s)[0]),
    decreases s.len(),
{
    if s.len() > 0 && is_ws(s[0]) {
        lemma_trim_start_suffix(s.drop_first());
        assert(s.drop_first().subrange(
            s.drop_first().len() - trim_start(s).len(),
            s.drop_first().len() as int,
        ) =~= s.subrange(s.len() - trim_start(s).len(), s.len() as int));
    } else {
        assert(s.subrange(0, s.len() as int) =~= s);
    }
}

/// What `trim_end` leaves is a prefix, and it ends with no whitespace.
pub proof fn lemma_trim_end_prefix(s: Seq<char>)
    ensures
        trim_end(s).len() <= s.len(),
        trim_end(s) == s.subrange(0, trim_end(s).len() as int),
        trim_end(s).len() > 0 ==> !is_ws(trim_end(s).last()),
    decreases s.len(),
{
    if s.len() > 0 && is_ws(s.last()) {
        lemma_trim_end_prefix(s.drop_last());
        assert(s.drop_last().subrange(0, trim_end(s).len() as int) =~= s.subrange(
            0,
            trim_end(s).len() as int,
        ));
    } else {
        assert(s.subrange(0, s.len() as int) =~= s);
    }
}

/// Trimming twice is trimming once, and trimming keeps text ASCII.
pub proof fn lemma_trim_idempotent(s: Seq<char>)
    ensures
        trim(trim(s)) == trim(s),
        is_ascii_text(s) ==> is_ascii_text(trim(s)),
{
    let a = trim_start(s);
    let b = trim_end(a);
    lemma_trim_start_suffix(s);
    lemma_trim_end_prefix(a);
    lemma_trim_start_suffix(b);
    lemma_trim_end_prefix(b);
    if b.len() > 0 {
        assert(b[0] == a[0]);
    }
    assert(trim_start(b) == b);
    if is_ascii_text(s) {
        assert forall|i: int| 0 <= i < b.len() implies (#[trigger] b[i] as u32) < 128 by {
            assert(b[i] == a[i]);
            assert(a[i] == s[s.len() - a.len() + i]);
        }
    }
}

} // verus!
