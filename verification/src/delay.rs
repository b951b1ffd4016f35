//! A span of time as whole seconds plus nanoseconds, the unit in which retry
//! delays and `Retry-After` hints are computed.

use core::time::Duration;
use vstd::prelude::*;

verus! {

/// Number of nanoseconds in one second.
pub const NANOS_PER_SEC: u32 = 1_000_000_000;

/// The largest number of nanoseconds a `Delay` (like a `std::time::Duration`) can hold.
pub open spec fn max_delay_nanos() -> int {
    u64::MAX as int * NANOS_PER_SEC as int + (NANOS_PER_SEC - 1) as int
}

/// A non-negative span of time: `secs` whole seconds and `nanos` further
/// nanoseconds, with `nanos` always below one second.
#[derive(Clone, Copy, Debug, PartialEq, Eq, Structural)]
pub struct Delay {
    secs: u64,
    nanos: u32,
}

impl View for Delay {
    type V = nat;

    /// The span in nanoseconds.
    closed spec fn view(&self) -> nat {
        (self.secs * NANOS_PER_SEC + self.nanos) as nat
    }
}

impl Delay {
    #[verifier::type_invariant]
    spec fn well_formed(self) -> bool {
        self.nanos < NANOS_PER_SEC
    }

    /// The span of `secs` whole seconds.
    pub closed spec fn spec_from_secs(secs: u64) -> Delay {
        Delay { secs, nanos: 0 }
    }

    /// The span of `secs` whole seconds lasts `secs` seconds.
    pub proof fn lemma_spec_from_secs(secs: u64)
        ensures
            Delay::spec_from_secs(secs)@ == secs * NANOS_PER_SEC,
    {
    }

    /// The span of `secs` whole seconds.
    pub fn from_secs(secs: u64) -> (d: Delay)
        ensures
            d@ == secs * NANOS_PER_SEC,
            d == Delay::spec_from_secs(secs),
    {
        Delay { secs, nanos: 0 }
    }

    /// The span of `millis` milliseconds.
    pub fn from_millis(millis: u64) -> (d: Delay)
        ensures
            d@ == millis * 1_000_000,
    {
        let secs = millis / 1000;
        let rem = millis % 1000;
        proof {
            assert(millis == secs * 1000 + rem) by (nonlinear_arith)
                requires
                    secs == millis / 1000,
                    rem == millis % 1000,
            ;
        }
        let nanos = (rem as u32) * 1_000_000;
        Delay { secs, nanos }
    }

    /// The span of `secs` seconds and `nanos` nanoseconds; nanoseconds beyond a
    /// second carry into the seconds.
    pub fn new(secs: u64, nanos: u32) -> (d: Delay)
        requires
            secs + nanos / NANOS_PER_SEC <= u64::MAX,
        ensures
            d@ == secs * NANOS_PER_SEC + nanos,
    {
        let extra = nanos / NANOS_PER_SEC;
        let rest = nanos % NANOS_PER_SEC;
        Delay { secs: secs + extra as u64, nanos: rest }
    }

    /// The span of `nanos` nanoseconds.
    pub fn from_nanos(nanos: u128) -> (d: Delay)
        requires
            nanos <= max_delay_nanos(),
        ensures
            d@ == nanos,
    {
        let secs = nanos / (NANOS_PER_SEC as u128);
        let rest = nanos % (NANOS_PER_SEC as u128);
        proof {
            assert(secs <= u64::MAX) by (nonlinear_arith)
                requires
                    secs == nanos / 1_000_000_000u128,
                    nanos <= u64::MAX as int * 1_000_000_000 + 999_999_999,
            ;
        }
        Delay { secs: secs as u64, nanos: rest as u32 }
    }

    /// Whole seconds in the span.
    pub fn as_secs(&self) -> (s: u64)
        ensures
            s == self@ / NANOS_PER_SEC as nat,
    {
        proof {
            use_type_invariant(self);
        }
        self.secs
    }

    /// The part of the span below one second, in nanoseconds.
    pub fn subsec_nanos(&self) -> (n: u32)
        ensures
            n == self@ % NANOS_PER_SEC as nat,
            n < NANOS_PER_SEC,
    {
        proof {
            use_type_invariant(self);
        }
        self.nanos
    }

    /// The span in nanoseconds.
    pub fn as_nanos(&self) -> (n: u128)
        ensures
            n == self@,
            n <= max_delay_nanos(),
    {
        proof {
            use_type_invariant(self);
            assert(self.secs * 1_000_000_000 <= u64::MAX as int * 1_000_000_000) by (nonlinear_arith)
                requires
                    self.secs <= u64::MAX,
            ;
        }
        self.secs as u128 * (NANOS_PER_SEC as u128) + self.nanos as u128
    }

    /// Whether this span is at most as long as `other`.
    pub fn le(&self, other: &Delay) -> (r: bool)
        ensures
            r == (self@ <= other@),
    {
        proof {
            use_type_invariant(self);
            use_type_invariant(other);
        }
        self.secs < other.secs || (self.secs == other.secs && self.nanos <= other.nanos)
    }

    /// The longer of the two spans.
    pub fn max(self, other: Delay) -> (d: Delay)
        ensures
            d@ == if self@ >= other@ { self@ } else { other@ },
            d == self || d == other,
    {
        if other.le(&self) {
            self
        } else {
            other
        }
    }
}

/// What `std::time::Duration::new` returns for the given seconds and
/// nanoseconds.
pub uninterp spec fn std_duration(secs: u64, nanos: u32) -> Duration;

/// What `std::time::Duration::as_nanos` returns: the total number of
/// nanoseconds in the duration.
pub uninterp spec fn duration_nanos(d: Duration) -> nat;

/// `std::time::Duration::as_nanos`: the total number of nanoseconds in the
/// duration, which is at most what a `Delay` can hold (`Duration` stores `u64`
/// seconds and fewer than a second of nanoseconds).
#[verifier::external_body]
pub(crate) fn duration_as_nanos(d: Duration) -> (n: u128)
    ensures
        n == duration_nanos(d),
        n <= max_delay_nanos(),
{
    d.as_nanos()
}

/// `std::time::Duration::new`: builds a duration from seconds and nanoseconds;
/// it panics only when carrying the nanoseconds overflows the seconds, which
/// `requires` rules out. With fewer than a second of nanoseconds nothing
/// carries, so the duration holds `secs` seconds plus `nanos`.
#[verifier::external_body]
pub(crate) fn duration_new(secs: u64, nanos: u32) -> (d: Duration)
    requires
        nanos < NANOS_PER_SEC,
    ensures
        d == std_duration(secs, nanos),
        duration_nanos(d) == secs * NANOS_PER_SEC + nanos,
{
    Duration::new(secs, nanos)
}

impl Delay {
    /// The same span as a `std::time::Duration`, for handing to timers: the
    /// duration of the span's whole seconds and its remaining nanoseconds.
    pub fn to_std(&self) -> (d: Duration)
        ensures
            d == std_duration(
                (self@ / NANOS_PER_SEC as nat) as u64,
                (self@ % NANOS_PER_SEC as nat) as u32,
            ),
            duration_nanos(d) == self@,
    {
        proof {
            use_type_invariant(self);
        }
        duration_new(self.secs, self.nanos)
    }

    /// The same span as a `std::time::Duration`, as a `Delay`.
    pub fn from_std(d: Duration) -> (r: Delay)
        ensures
            r@ == duration_nanos(d),
    {
        Delay::from_nanos(duration_as_nanos(d))
    }
}

} // verus!
