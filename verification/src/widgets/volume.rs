//! The volume indicator's value label.

use vstd::prelude::*;

use crate::text::{decimal, push_decimal, push_str};

verus! {

/// The volume right-aligned in three columns, then `%`.
pub open spec fn volume_text(volume: u8) -> Seq<char> {
    let pad = if volume < 10 {
        "  "@
    } else if volume < 100 {
        " "@
    } else {
        Seq::<char>::empty()
    };
    pad + decimal(volume as nat) + "%"@
}

/// The label shown beside the volume gauge.
pub fn volume_label(volume: u8) -> (r: String)
    ensures
        r@ == volume_text(volume),
{
    let mut out = String::new();
    if volume < 10 {
        push_str(&mut out, "  ");
    } else if volume < 100 {
        push_str(&mut out, " ");
    }
    push_decimal(&mut out, volume as u64);
    push_str(&mut out, "%");
    proof {
        reveal_strlit("  ");
        reveal_strlit(" ");
        reveal_strlit("%");
    }
    assert(out@ =~= volume_text(volume));
    out
}

} // verus!
