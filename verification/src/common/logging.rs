//! Choice of the tracing filter directive.
//!
//! The program installs the subscriber and the file sink; the library
//! decides which filter it gets.

use vstd::prelude::*;

use crate::text::push_str;

verus! {

/// The level that applies for a verbosity count: the configured one when no
/// `-v` was given, then `info`, `debug` and `trace`.
pub open spec fn effective_level(configured: Seq<char>, verbose: u8) -> Seq<char> {
    if verbose == 0 {
        configured
    } else if verbose == 1 {
        "info"@
    } else if verbose == 2 {
        "debug"@
    } else {
        "trace"@
    }
}

/// The filter used when `SPTF_LOG` is unset: `sptf_tui=<level>,warn`.
pub fn default_filter_directive(configured_level: &str, verbose: u8) -> (r: String)
    ensures
        r@ == "sptf_tui="@ + effective_level(configured_level@, verbose) + ",warn"@,
{
    let level: &str = if verbose == 0 {
        configured_level
    } else if verbose == 1 {
        "info"
    } else if verbose == 2 {
        "debug"
    } else {
        "trace"
    };
    let mut out = String::new();
    push_str(&mut out, "sptf_tui=");
    push_str(&mut out, level);
    push_str(&mut out, ",warn");
    out
}

/// Whether log lines are also mirrored to stderr: only when `-v` was given.
pub fn mirrors_to_stderr(verbose: u8) -> (r: bool)
    ensures
        r == (verbose > 0),
{
    verbose > 0
}

} // verus!
