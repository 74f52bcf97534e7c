//! Reading `pactl list sink-inputs` output for the per-application volume
//! fallback. The program runs `pactl`; this module reads what it printed
//! and builds the arguments it passes.

use vstd::prelude::*;

use crate::text::{
    chars_eq_str, chars_of, chars_start_with, decimal, line_spans, lines, parse_unsigned,
    parse_unsigned_range, push_char, push_decimal, push_str, skip_ws_from_bounded, spans_view,
    spans_within, trim, trim_bounds, trim_start,
};

verus! {

/// Prefix of the header line of each sink-input record.
pub open spec fn sink_input_header() -> Seq<char> {
    "Sink Input #"@
}

/// The properties line that names the owning process `pid`.
pub open spec fn pid_marker(pid: u32) -> Seq<char> {
    "application.process.id = \""@ + decimal(pid as nat) + "\""@
}

/// Walk the lines: a header line (after leading whitespace) sets the
/// current record's index (or clears it when the index does not parse); the
/// first marker line seen while a record is current yields that index.
pub open spec fn scan_sink_inputs(ls: Seq<Seq<char>>, marker: Seq<char>, current: Option<nat>) -> Option<nat>
    decreases ls.len(),
{
    if ls.len() == 0 {
        None
    } else {
        let t = trim_start(ls[0]);
        let h = sink_input_header();
        if t.len() >= h.len() && t.subrange(0, h.len() as int) == h {
            scan_sink_inputs(
                ls.drop_first(),
                marker,
                parse_unsigned(trim(t.subrange(h.len() as int, t.len() as int)), u32::MAX as nat),
            )
        } else if current.is_some() && t == marker {
            current
        } else {
            scan_sink_inputs(ls.drop_first(), marker, current)
        }
    }
}

/// The index of the sink input that process `pid` owns, per the text.
pub open spec fn spec_sink_input_for_pid(text: Seq<char>, pid: u32) -> Option<nat> {
    scan_sink_inputs(lines(text), pid_marker(pid), None)
}

/// Builds the marker line for `pid`.
fn marker_for(pid: u32) -> (r: String)
    ensures
        r@ == pid_marker(pid),
{
    let mut m = String::new();
    push_str(&mut m, "application.process.id = \"");
    push_decimal(&mut m, pid as u64);
    push_char(&mut m, '"');
    assert(m@ =~= pid_marker(pid)) by {
        reveal_strlit("\"");
    }
    m
}

/// Find the sink input that process `pid` owns in `pactl list sink-inputs`
/// output: records begin with `Sink Input #N`, and the owner appears as
/// `application.process.id = "<pid>"` inside the record.
pub fn parse_sink_input_for_pid(text: &str, pid: u32) -> (r: Option<u32>)
    ensures
        r matches Some(n) ==> spec_sink_input_for_pid(text@, pid) == Some(n as nat),
        r is None ==> spec_sink_input_for_pid(text@, pid) is None,
{
    let v = chars_of(text);
    let s = v.as_slice();
    let spans = line_spans(s);
    let ghost ls = spans_view(v@, spans@);
    let marker = marker_for(pid);
    let ghost mk = marker@;
    let mut current: Option<u32> = None;
    let n = spans.len();
    let mut i: usize = 0;
    assert(ls.skip(0) =~= ls);
    while i < n
        invariant
            n == spans@.len(),
            spans_within(v@, spans@),
            ls == spans_view(v@, spans@),
            ls == lines(text@),
            v@ == text@,
            s@ == v@,
            mk == marker@,
            mk == pid_marker(pid),
            i <= n,
            scan_sink_inputs(ls, mk, None) == scan_sink_inputs(
                ls.skip(i as int),
                mk,
                match current {
                    Some(c) => Some(c as nat),
                    None => None,
                },
            ),
        decreases n - i,
    {
        let sp = &spans[i];
        assert(spans@[i as int].start <= spans@[i as int].end <= v@.len());
        let ghost line = ls[i as int];
        assert(line == v@.subrange(sp.start as int, sp.end as int));
        assert(ls.skip(i as int)[0] == line);
        assert(ls.skip(i as int).drop_first() =~= ls.skip(i + 1));
        let a = skip_ws_from_bounded(s, sp.start, sp.end);
        let ghost t = v@.subrange(a as int, sp.end as int);
        proof {
            reveal_strlit("Sink Input #");
        }
        assert(sink_input_header().len() == 12);
        assert(t.len() >= 12 ==> t.subrange(0, 12) =~= v@.subrange(a as int, a + 12));
        if chars_start_with(s, a, sp.end, "Sink Input #") {
            let h = a + 12;
            assert(t.subrange(12, t.len() as int) =~= v@.subrange(h as int, sp.end as int));
            let (p, q) = trim_bounds(s, h, sp.end);
            current = match parse_unsigned_range(s, p, q, 4294967295u64) {
                Some(x) => Some(x as u32),
                None => None,
            };
        } else {
            let matches = chars_eq_str(s, a, sp.end, marker.as_str());
            if current.is_some() && matches {
                return current;
            }
        }
        i = i + 1;
    }
    assert(ls.skip(n as int) =~= Seq::<Seq<char>>::empty());
    None
}

/// The percentage argument `pactl set-sink-input-volume` gets: the volume,
/// capped at 100, followed by `%`.
pub fn volume_percent_arg(volume: u8) -> (r: String)
    ensures
        r@ == decimal((if volume > 100 {
            100u8
        } else {
            volume
        }) as nat) + "%"@,
{
    let v = if volume > 100 {
        100u8
    } else {
        volume
    };
    let mut out = String::new();
    push_decimal(&mut out, v as u64);
    push_char(&mut out, '%');
    assert(out@ =~= decimal(v as nat) + "%"@) by {
        reveal_strlit("%");
    }
    out
}

} // verus!
