//! Spans of time with nanosecond resolution, as the queue configures and stores them.

use vstd::prelude::*;

verus! {

/// Nanoseconds in one millisecond.
pub const NANOS_PER_MILLI: u128 = 1_000_000;

/// Nanoseconds in one second.
pub const NANOS_PER_SEC: u128 = 1_000_000_000;

/// The longest span: `u64::MAX` seconds and 999 999 999 nanoseconds.
pub const MAX_NANOS: u128 = 18_446_744_073_709_551_615_999_999_999;

/// What `x` becomes when its low 64 bits are read as a two's complement number.
pub open spec fn wrapped_i64(x: int) -> int {
    let low = x % 0x1_0000_0000_0000_0000;
    if low < 0x8000_0000_0000_0000 {
        low
    } else {
        low - 0x1_0000_0000_0000_0000
    }
}

/// A span of time. Its view is its length in nanoseconds.
#[derive(Clone, Copy, Debug, PartialEq, Eq, Structural)]
pub struct Duration {
    nanos: u128,
}

impl View for Duration {
    type V = nat;

    closed spec fn view(&self) -> nat {
        self.nanos as nat
    }
}

impl Duration {
    #[verifier::type_invariant]
    spec fn in_range(self) -> bool {
        self.nanos <= MAX_NANOS
    }

    /// `secs` whole seconds.
    pub fn from_secs(secs: u64) -> (d: Duration)
        ensures
            d@ == secs * NANOS_PER_SEC,
    {
        Duration { nanos: secs as u128 * NANOS_PER_SEC }
    }

    /// `millis` whole milliseconds.
    pub fn from_millis(millis: u64) -> (d: Duration)
        ensures
            d@ == millis * NANOS_PER_MILLI,
    {
        Duration { nanos: millis as u128 * NANOS_PER_MILLI }
    }

    /// `secs` whole seconds and `nanos` nanoseconds.
    pub fn new(secs: u64, nanos: u32) -> (d: Duration)
        requires
            secs * NANOS_PER_SEC + nanos <= MAX_NANOS,
        ensures
            d@ == secs * NANOS_PER_SEC + nanos,
    {
        Duration { nanos: secs as u128 * NANOS_PER_SEC + nanos as u128 }
    }

    /// The whole seconds in the span.
    pub fn as_secs(&self) -> (secs: u64)
        ensures
            secs == self@ as int / NANOS_PER_SEC as int,
    {
        proof {
            use_type_invariant(self);
        }
        (self.nanos / NANOS_PER_SEC) as u64
    }

    /// The nanoseconds beyond the whole seconds.
    pub fn subsec_nanos(&self) -> (nanos: u32)
        ensures
            nanos == self@ as int % NANOS_PER_SEC as int,
    {
        (self.nanos % NANOS_PER_SEC) as u32
    }

    /// The whole milliseconds in the span.
    pub fn as_millis(&self) -> (millis: u128)
        ensures
            millis == self@ as int / NANOS_PER_MILLI as int,
    {
        self.nanos / NANOS_PER_MILLI
    }

    /// The whole milliseconds in the span, narrowed to 64 bits the way a cast narrows them.
    pub fn as_millis_i64(&self) -> (millis: i64)
        ensures
            millis == wrapped_i64(self@ as int / NANOS_PER_MILLI as int),
    {
        let low: u128 = self.as_millis() % 0x1_0000_0000_0000_0000;
        if low < 0x8000_0000_0000_0000 {
            low as i64
        } else {
            (low as i128 - 0x1_0000_0000_0000_0000) as i64
        }
    }

    /// The span taken `factor` times, or the longest span when that would be longer still.
    pub fn saturating_mul(&self, factor: u32) -> (d: Duration)
        ensures
            d@ == if self@ * factor <= MAX_NANOS {
                self@ * factor as nat
            } else {
                MAX_NANOS as nat
            },
    {
        proof {
            use_type_invariant(self);
            assert(self.nanos * factor <= MAX_NANOS * u32::MAX) by (nonlinear_arith)
                requires
                    self.nanos <= MAX_NANOS,
                    factor <= u32::MAX,
            ;
        }
        let product: u128 = self.nanos * factor as u128;
        if product <= MAX_NANOS {
            Duration { nanos: product }
        } else {
            Duration { nanos: MAX_NANOS }
        }
    }

    /// The shorter of two spans. Neither is longer than the longest span.
    pub fn min(self, other: Duration) -> (d: Duration)
        ensures
            d == if self@ <= other@ {
                self
            } else {
                other
            },
            self@ <= MAX_NANOS,
            other@ <= MAX_NANOS,
    {
        proof {
            use_type_invariant(&self);
            use_type_invariant(&other);
        }
        if self.nanos <= other.nanos {
            self
        } else {
            other
        }
    }
}

/// Two spans of the same length are the same span.
pub proof fn law_spans_of_the_same_length_are_the_same(a: Duration, b: Duration)
    ensures
        a@ == b@ ==> a == b,
{
}

/// Narrowing to 64 bits keeps a number that they hold, and brings any other back into range by
/// whole multiples of their span.
pub proof fn law_narrowing_keeps_what_fits(x: int)
    ensures
        i64::MIN <= x <= i64::MAX ==> wrapped_i64(x) == x,
        i64::MIN <= wrapped_i64(x) <= i64::MAX,
        (x - wrapped_i64(x)) % 0x1_0000_0000_0000_0000 == 0,
{
}

/// A second is a thousand milliseconds and a thousand million nanoseconds, and the longest span is
/// one nanosecond short of `u64::MAX` seconds and one.
pub proof fn law_units_of_time()
    ensures
        NANOS_PER_MILLI == 1_000_000,
        NANOS_PER_SEC == 1_000 * NANOS_PER_MILLI,
        MAX_NANOS + 1 == (u64::MAX + 1) * NANOS_PER_SEC,
{
}

} // verus!
