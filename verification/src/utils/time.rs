//! Duration formatting used by several widgets.

use vstd::prelude::*;

use crate::domain::Duration;
use crate::text::{
    all_digits, decimal, decimal2, digit_char, digits_value, lemma_decimal2_digits,
    lemma_decimal_reads_back, push_char, push_decimal, push_decimal2,
};

verus! {

/// `m:ss` for spans under an hour, `h:mm:ss` otherwise, from whole seconds.
pub open spec fn duration_text(total_secs: nat) -> Seq<char> {
    let hours = total_secs / 3600;
    let minutes = (total_secs % 3600) / 60;
    let seconds = total_secs % 60;
    if hours > 0 {
        decimal(hours) + seq![':'] + decimal2(minutes) + seq![':'] + decimal2(seconds)
    } else {
        decimal(minutes) + seq![':'] + decimal2(seconds)
    }
}

/// Format a [`Duration`] as `m:ss` or `h:mm:ss`.
pub fn format_duration(duration: Duration) -> (r: String)
    ensures
        r@ == duration_text(duration.spec_secs()),
{
    let total_secs = duration.as_secs();
    let hours = total_secs / 3600;
    let minutes = (total_secs % 3600) / 60;
    let seconds = total_secs % 60;
    let mut out = String::new();
    if hours > 0 {
        push_decimal(&mut out, hours);
        push_char(&mut out, ':');
        push_decimal2(&mut out, minutes);
        push_char(&mut out, ':');
        push_decimal2(&mut out, seconds);
    } else {
        push_decimal(&mut out, minutes);
        push_char(&mut out, ':');
        push_decimal2(&mut out, seconds);
    }
    assert(out@ =~= duration_text(duration.spec_secs()));
    out
}

/// What each field of the text says. From an hour on, the text is the
/// hours in decimal without leading zero, `:`, the two digits of the
/// minutes within the hour, `:`, and the two digits of the seconds within
/// the minute. Under an hour, it is the minutes in decimal without leading
/// zero (a lone `0` for none), `:`, and the two digits of the seconds.
pub proof fn law_duration_text_fields(s: nat)
    ensures
        ({
            let t = duration_text(s);
            let k = t.len() as int;
            let minutes = (s % 3600) / 60;
            let seconds = s % 60;
            s >= 3600 ==> {
                &&& k >= 7
                &&& all_digits(t.take(k - 6))
                &&& digits_value(t.take(k - 6)) == s / 3600
                &&& t[0] != '0'
                &&& t[k - 6] == ':'
                &&& t[k - 5] == digit_char((minutes / 10) as int)
                &&& t[k - 4] == digit_char((minutes % 10) as int)
                &&& t[k - 3] == ':'
                &&& t[k - 2] == digit_char((seconds / 10) as int)
                &&& t[k - 1] == digit_char((seconds % 10) as int)
            }
        }),
        ({
            let t = duration_text(s);
            let k = t.len() as int;
            let seconds = s % 60;
            s < 3600 ==> {
                &&& k >= 4
                &&& all_digits(t.take(k - 3))
                &&& digits_value(t.take(k - 3)) == s / 60
                &&& (t[0] != '0' || k == 4)
                &&& t[k - 3] == ':'
                &&& t[k - 2] == digit_char((seconds / 10) as int)
                &&& t[k - 1] == digit_char((seconds % 10) as int)
            }
        }),
{
    let t = duration_text(s);
    let minutes = (s % 3600) / 60;
    let seconds = s % 60;
    lemma_decimal2_digits(minutes);
    lemma_decimal2_digits(seconds);
    if s >= 3600 {
        let h = decimal(s / 3600);
        lemma_decimal_reads_back(s / 3600);
        assert(t == h + seq![':'] + decimal2(minutes) + seq![':'] + decimal2(seconds));
        assert(t.take(t.len() - 6) =~= h);
    } else {
        let m = decimal(s / 60);
        assert((s % 3600) / 60 == s / 60);
        lemma_decimal_reads_back(s / 60);
        assert(t == m + seq![':'] + decimal2(seconds));
        assert(t.take(t.len() - 3) =~= m);
    }
}

} // verus!
