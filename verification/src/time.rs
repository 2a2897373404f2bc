//! Spans of time, counted in nanoseconds.

use vstd::prelude::*;

verus! {

/// Nanoseconds in one second.
pub const NANOS_PER_SEC: u128 = 1_000_000_000;

/// Nanoseconds in one millisecond.
pub const NANOS_PER_MILLI: u128 = 1_000_000;

/// The longest span: `u64::MAX` seconds and 999 999 999 nanoseconds.
pub const MAX_NANOS: u128 = 18_446_744_073_709_551_615_999_999_999;

/// A span of time, or a point in time measured from a clock's origin.
///
/// The view is the number of nanoseconds.
#[derive(Clone, Copy, Debug, PartialEq, Eq, PartialOrd, Ord, Hash, Structural)]
pub struct Duration {
    nanos: u128,
}

impl View for Duration {
    type V = int;

    closed spec fn view(&self) -> int {
        self.nanos as int
    }
}

impl Duration {
    #[verifier::type_invariant]
    spec fn well_formed(self) -> bool {
        self.nanos <= MAX_NANOS
    }

    /// Two spans with the same number of nanoseconds are the same span.
    pub broadcast proof fn view_is_injective(a: Duration, b: Duration)
        ensures
            #[trigger] a@ == #[trigger] b@ <==> a == b,
    {
    }

    /// No span is negative.
    pub broadcast proof fn view_is_not_negative(a: Duration)
        ensures
            #[trigger] a@ >= 0,
    {
    }

    /// The empty span.
    pub fn zero() -> (r: Self)
        ensures
            r@ == 0,
    {
        Duration { nanos: 0 }
    }

    /// A span of whole seconds.
    pub fn from_secs(secs: u64) -> (r: Self)
        ensures
            r@ == secs * NANOS_PER_SEC,
    {
        assert(secs as u128 * NANOS_PER_SEC <= MAX_NANOS);
        Duration { nanos: secs as u128 * NANOS_PER_SEC }
    }

    /// A span of whole milliseconds.
    pub fn from_millis(millis: u64) -> (r: Self)
        ensures
            r@ == millis * NANOS_PER_MILLI,
    {
        Duration { nanos: millis as u128 * NANOS_PER_MILLI }
    }

    /// A span of nanoseconds, cut off at the longest span.
    pub fn from_nanos(nanos: u128) -> (r: Self)
        ensures
            r@ == if nanos <= MAX_NANOS { nanos as int } else { MAX_NANOS as int },
    {
        if nanos <= MAX_NANOS {
            Duration { nanos }
        } else {
            Duration { nanos: MAX_NANOS }
        }
    }

    /// The span in nanoseconds.
    pub fn as_nanos(&self) -> (r: u128)
        ensures
            r == self@,
            0 <= self@ <= MAX_NANOS,
    {
        proof {
            use_type_invariant(self);
        }
        self.nanos
    }

    /// Whether the span is empty.
    pub fn is_zero(&self) -> (r: bool)
        ensures
            r == (self@ == 0),
    {
        self.nanos == 0
    }

    /// The longer of two spans.
    pub fn max(self, other: Duration) -> (r: Duration)
        ensures
            r == if self@ >= other@ { self } else { other },
    {
        if self.nanos >= other.nanos {
            self
        } else {
            other
        }
    }

    /// Whether `self` ends before `other` does.
    pub fn is_shorter_than(self, other: Duration) -> (r: bool)
        ensures
            r == (self@ < other@),
    {
        self.nanos < other.nanos
    }

    /// The sum of two spans, cut off at the longest span.
    pub fn saturating_add(self, other: Duration) -> (r: Duration)
        ensures
            r@ == later(self, other),
    {
        proof {
            use_type_invariant(&self);
            use_type_invariant(&other);
        }
        Duration::from_nanos(self.nanos + other.nanos)
    }

    /// The time from `earlier` to `self`, zero if `earlier` is later.
    pub fn saturating_sub(self, earlier: Duration) -> (r: Duration)
        ensures
            r@ == if self@ >= earlier@ { self@ - earlier@ } else { 0 },
    {
        proof {
            use_type_invariant(&self);
        }
        if self.nanos >= earlier.nanos {
            Duration { nanos: self.nanos - earlier.nanos }
        } else {
            Duration { nanos: 0 }
        }
    }
}

/// `now` plus `delay`, as far as time goes.
pub open spec fn later(now: Duration, delay: Duration) -> int {
    if now@ + delay@ <= MAX_NANOS {
        now@ + delay@
    } else {
        MAX_NANOS as int
    }
}

} // verus!
