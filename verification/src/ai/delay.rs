//! Spans of time, in whole nanoseconds.

use vstd::prelude::*;

verus! {

/// Nanoseconds in one second.
pub const NANOS_PER_SEC: u128 = 1_000_000_000;

/// The longest span: `u64::MAX` seconds and 999,999,999 nanoseconds, which is
/// also the longest `std::time::Duration`.
pub const MAX_NANOS: u128 = 18_446_744_073_709_551_615_999_999_999;

/// A span of time, or a reading of a monotonic clock as the time since that
/// clock was started. Its view is the number of nanoseconds.
#[derive(Debug, Clone, Copy, PartialEq, Eq)]
pub struct Delay {
    nanos: u128,
}

impl View for Delay {
    type V = nat;

    closed spec fn view(&self) -> nat {
        self.nanos as nat
    }
}

impl Delay {
    #[verifier::type_invariant]
    spec fn in_range(self) -> bool {
        self.nanos <= MAX_NANOS
    }

    /// The span of `nanos` nanoseconds.
    pub fn from_nanos(nanos: u128) -> (delay: Delay)
        requires
            nanos <= MAX_NANOS,
        ensures
            delay@ == nanos,
    {
        Delay { nanos }
    }

    /// The span of `secs` seconds.
    pub fn from_secs(secs: u64) -> (delay: Delay)
        ensures
            delay@ == secs * NANOS_PER_SEC,
    {
        Delay { nanos: secs as u128 * NANOS_PER_SEC }
    }

    /// The length of the span in nanoseconds.
    pub fn as_nanos(&self) -> (nanos: u128)
        ensures
            nanos == self@,
            nanos <= MAX_NANOS,
    {
        proof {
            use_type_invariant(self);
        }
        self.nanos
    }

    /// The whole seconds of the span.
    pub fn as_secs(&self) -> (secs: u64)
        ensures
            secs == self@ / NANOS_PER_SEC as nat,
    {
        proof {
            use_type_invariant(self);
        }
        (self.nanos / NANOS_PER_SEC) as u64
    }

    /// The nanoseconds of the span beyond its whole seconds.
    pub fn subsec_nanos(&self) -> (nanos: u32)
        ensures
            nanos == self@ % NANOS_PER_SEC as nat,
    {
        (self.nanos % NANOS_PER_SEC) as u32
    }
}

/// The whole seconds of a span and the nanoseconds beyond them make up the span,
/// and the latter are less than a second.
pub proof fn seconds_and_nanoseconds_make_the_span(nanos: nat)
    ensures
        1_000_000_000 * (nanos / NANOS_PER_SEC as nat) + nanos % NANOS_PER_SEC as nat == nanos,
        nanos % NANOS_PER_SEC as nat <= 999_999_999,
{
}

} // verus!
