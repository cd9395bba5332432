//! A span of time with saturating arithmetic, measured in nanoseconds.

use vstd::prelude::*;

verus! {

/// Nanoseconds in one second.
pub const NANOS_PER_SEC: u128 = 1_000_000_000;

/// The largest span a `Duration` can hold, in nanoseconds: `u64::MAX` seconds
/// plus `999_999_999` nanoseconds.
pub const MAX_NANOS: u128 = 18_446_744_073_709_551_615_999_999_999;

/// A span of time with nanosecond precision, bounded by [`Duration::MAX`].
#[derive(Debug, Clone, Copy, PartialEq, Eq, Hash, Structural)]
pub struct Duration {
    nanos: u128,
}

impl View for Duration {
    type V = nat;

    closed spec fn view(&self) -> nat {
        self.nanos as nat
    }
}

impl Duration {
    #[verifier::type_invariant]
    spec fn wf(self) -> bool {
        self.nanos <= MAX_NANOS
    }

    /// The empty span.
    pub fn zero() -> (d: Duration)
        ensures
            d@ == 0,
    {
        Duration { nanos: 0 }
    }

    /// The largest representable span.
    pub fn max_value() -> (d: Duration)
        ensures
            d@ == MAX_NANOS,
    {
        Duration { nanos: MAX_NANOS }
    }

    /// Builds a span from a whole number of milliseconds.
    pub fn from_millis(millis: u64) -> (d: Duration)
        ensures
            d@ == millis * 1_000_000,
    {
        Duration { nanos: millis as u128 * 1_000_000 }
    }

    /// Builds a span from a whole number of seconds.
    pub fn from_secs(secs: u64) -> (d: Duration)
        ensures
            d@ == secs * NANOS_PER_SEC,
    {
        Duration { nanos: secs as u128 * NANOS_PER_SEC }
    }

    /// Builds a span from whole seconds plus extra nanoseconds.
    ///
    /// Nanoseconds beyond one second carry into the seconds; the total must
    /// stay within [`Duration::max_value`].
    pub fn new(secs: u64, nanos: u32) -> (d: Duration)
        requires
            secs * NANOS_PER_SEC + nanos <= MAX_NANOS,
        ensures
            d@ == secs * NANOS_PER_SEC + nanos,
    {
        Duration { nanos: secs as u128 * NANOS_PER_SEC + nanos as u128 }
    }

    /// The total number of nanoseconds.
    pub fn as_nanos(&self) -> (n: u128)
        ensures
            n == self@,
            n <= MAX_NANOS,
    {
        proof {
            use_type_invariant(self);
        }
        self.nanos
    }

    /// The number of whole seconds.
    pub fn as_secs(&self) -> (s: u64)
        ensures
            s == self@ / NANOS_PER_SEC as nat,
    {
        proof {
            use_type_invariant(self);
        }
        (self.nanos / NANOS_PER_SEC) as u64
    }

    /// The number of whole milliseconds.
    pub fn as_millis(&self) -> (ms: u128)
        ensures
            ms == self@ / 1_000_000,
    {
        self.nanos / 1_000_000
    }

    /// Adds two spans, stopping at [`Duration::max_value`] instead of overflowing.
    pub fn saturating_add(self, other: Duration) -> (d: Duration)
        ensures
            d@ == if self@ + other@ <= MAX_NANOS { self@ + other@ } else { MAX_NANOS as nat },
    {
        proof {
            use_type_invariant(&self);
            use_type_invariant(&other);
        }
        let sum = self.nanos + other.nanos;
        if sum <= MAX_NANOS {
            Duration { nanos: sum }
        } else {
            Duration { nanos: MAX_NANOS }
        }
    }

    /// Multiplies a span by an integer, stopping at [`Duration::max_value`]
    /// instead of overflowing.
    pub fn saturating_mul(self, factor: u32) -> (d: Duration)
        ensures
            d@ == saturating_product(self@, factor as nat),
    {
        proof {
            use_type_invariant(&self);
        }
        if factor == 0 {
            return Duration { nanos: 0 };
        }
        if self.nanos <= MAX_NANOS / factor as u128 {
            proof {
                lemma_mul_within(self.nanos as int, factor as int);
            }
            Duration { nanos: self.nanos * factor as u128 }
        } else {
            proof {
                lemma_mul_beyond(self.nanos as int, factor as int);
            }
            Duration { nanos: MAX_NANOS }
        }
    }
}

/// `value * factor`, or `MAX_NANOS` when the product does not fit.
pub open spec fn saturating_product(value: nat, factor: nat) -> nat {
    if value * factor <= MAX_NANOS {
        value * factor
    } else {
        MAX_NANOS as nat
    }
}

proof fn lemma_mul_within(v: int, f: int)
    requires
        f > 0,
        0 <= v <= (MAX_NANOS as int) / f,
    ensures
        v * f <= MAX_NANOS,
{
    assert(v * f <= ((MAX_NANOS as int) / f) * f) by (nonlinear_arith)
        requires
            f > 0,
            0 <= v <= (MAX_NANOS as int) / f,
    ;
    assert(((MAX_NANOS as int) / f) * f <= MAX_NANOS) by (nonlinear_arith)
        requires
            f > 0,
    ;
}

proof fn lemma_mul_beyond(v: int, f: int)
    requires
        f > 0,
        v > (MAX_NANOS as int) / f,
    ensures
        v * f > MAX_NANOS,
{
    assert(v * f >= ((MAX_NANOS as int) / f + 1) * f) by (nonlinear_arith)
        requires
            f > 0,
            v >= (MAX_NANOS as int) / f + 1,
    ;
    assert(((MAX_NANOS as int) / f + 1) * f > MAX_NANOS) by (nonlinear_arith)
        requires
            f > 0,
    ;
}

} // verus!
