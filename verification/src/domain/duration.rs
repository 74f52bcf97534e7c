//! A span of time, held the way `std::time::Duration` holds it.

use vstd::prelude::*;

verus! {

/// Nanoseconds in one second.
pub const NANOS_PER_SEC: u32 = 1_000_000_000;

/// A span of time: whole seconds plus a sub-second part in nanoseconds.
#[derive(Debug, Clone, Copy, PartialEq, Eq, Structural)]
pub struct Duration {
    secs: u64,
    nanos: u32,
}

impl Duration {
    /// Whole seconds of the span.
    pub closed spec fn spec_secs(self) -> nat {
        self.secs as nat
    }

    /// Sub-second part of the span, in nanoseconds.
    pub closed spec fn spec_subsec_nanos(self) -> nat {
        self.nanos as nat
    }

    /// The span in nanoseconds.
    pub open spec fn spec_total_nanos(self) -> nat {
        self.spec_secs() * 1_000_000_000 + self.spec_subsec_nanos()
    }

    /// The span of `micros` microseconds.
    pub closed spec fn spec_from_micros(micros: nat) -> Duration {
        Duration { secs: (micros / 1_000_000) as u64, nanos: ((micros % 1_000_000) * 1000) as u32 }
    }

    /// Facts about [`Self::spec_from_micros`] for values that fit in `u64`.
    pub proof fn lemma_from_micros(micros: u64)
        ensures
            Self::spec_from_micros(micros as nat).wf(),
            Self::spec_from_micros(micros as nat).spec_secs() == micros / 1_000_000,
            Self::spec_from_micros(micros as nat).spec_subsec_nanos() == (micros % 1_000_000)
                * 1000,
    {
    }

    /// Whether the sub-second part is below one second, as for every value
    /// built by this type's constructors.
    pub closed spec fn wf(self) -> bool {
        self.nanos < NANOS_PER_SEC
    }

    /// Two well-formed spans are equal exactly when they last as long.
    pub proof fn lemma_eq_iff_same_length(a: Duration, b: Duration)
        requires
            a.wf(),
            b.wf(),
        ensures
            (a == b) <==> (a.spec_secs() == b.spec_secs() && a.spec_subsec_nanos()
                == b.spec_subsec_nanos()),
    {
    }

    /// The empty span.
    pub fn zero() -> (d: Duration)
        ensures
            d.wf(),
            d.spec_secs() == 0,
            d.spec_subsec_nanos() == 0,
    {
        Duration { secs: 0, nanos: 0 }
    }

    /// A span of `secs` whole seconds.
    pub fn from_secs(secs: u64) -> (d: Duration)
        ensures
            d.wf(),
            d.spec_secs() == secs,
            d.spec_subsec_nanos() == 0,
    {
        Duration { secs, nanos: 0 }
    }

    /// A span of `micros` microseconds.
    pub fn from_micros(micros: u64) -> (d: Duration)
        ensures
            d.wf(),
            d.spec_secs() == micros / 1_000_000,
            d.spec_subsec_nanos() == (micros % 1_000_000) * 1000,
            d.spec_total_nanos() == micros * 1000,
            d == Self::spec_from_micros(micros as nat),
    {
        let secs = micros / 1_000_000;
        let rest = micros % 1_000_000;
        let nanos = (rest * 1000) as u32;
        Duration { secs, nanos }
    }

    /// A span of `secs` seconds and `nanos` nanoseconds; whole seconds in
    /// `nanos` carry over into the seconds, as `std::time::Duration::new`
    /// does (which panics when the seconds overflow).
    pub fn new(secs: u64, nanos: u32) -> (d: Duration)
        requires
            secs + nanos / NANOS_PER_SEC <= u64::MAX,
        ensures
            d.wf(),
            d.spec_secs() == secs + nanos / NANOS_PER_SEC,
            d.spec_subsec_nanos() == nanos % NANOS_PER_SEC,
    {
        let extra = (nanos / NANOS_PER_SEC) as u64;
        Duration { secs: secs + extra, nanos: nanos % NANOS_PER_SEC }
    }

    /// Whole seconds of the span.
    pub fn as_secs(&self) -> (r: u64)
        ensures
            r == self.spec_secs(),
    {
        self.secs
    }

    /// Sub-second part of the span, in nanoseconds.
    pub fn subsec_nanos(&self) -> (r: u32)
        ensures
            r == self.spec_subsec_nanos(),
    {
        self.nanos
    }
}

} // verus!
