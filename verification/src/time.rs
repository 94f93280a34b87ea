//! Spans of time and instants of a monotonic clock.
use vstd::prelude::*;

verus! {

pub const NANOS_PER_SEC: u128 = 1_000_000_000;

pub const NANOS_PER_MILLI: u128 = 1_000_000;

/// The longest span: all the whole seconds that fit in 64 bits, and the rest of one more.
pub const MAX_SPAN_NANOS: u128 = 18_446_744_073_709_551_615_999_999_999;

/// A length of time, to the nanosecond.
#[derive(Debug, Clone, Copy, PartialEq, Eq, Structural, PartialOrd, Ord, Hash)]
pub struct TimeSpan {
    nanos: u128,
}

impl TimeSpan {
    #[verifier::type_invariant]
    spec fn is_bounded(self) -> bool {
        self.nanos <= MAX_SPAN_NANOS
    }

    /// The length in nanoseconds.
    pub closed spec fn length(self) -> nat {
        self.nanos as nat
    }

    pub fn zero() -> (span: Self)
        ensures
            span.length() == 0,
    {
        TimeSpan { nanos: 0 }
    }

    pub fn from_secs(secs: u64) -> (span: Self)
        ensures
            span.length() == secs * NANOS_PER_SEC,
    {
        TimeSpan { nanos: secs as u128 * NANOS_PER_SEC }
    }

    pub fn from_millis(millis: u64) -> (span: Self)
        ensures
            span.length() == millis * NANOS_PER_MILLI,
    {
        TimeSpan { nanos: millis as u128 * NANOS_PER_MILLI }
    }

    /// A span of so many nanoseconds, or the longest one.
    pub fn from_nanos_saturating(nanos: u128) -> (span: Self)
        ensures
            span.length() == if nanos <= MAX_SPAN_NANOS {
                nanos as nat
            } else {
                MAX_SPAN_NANOS as nat
            },
    {
        if nanos <= MAX_SPAN_NANOS {
            TimeSpan { nanos }
        } else {
            TimeSpan { nanos: MAX_SPAN_NANOS }
        }
    }

    pub fn as_nanos(&self) -> (nanos: u128)
        ensures
            nanos == self.length(),
            nanos <= MAX_SPAN_NANOS,
    {
        proof {
            use_type_invariant(&*self);
        }
        self.nanos
    }

    pub fn as_millis(&self) -> (millis: u128)
        ensures
            millis == self.length() / 1_000_000,
    {
        self.nanos / NANOS_PER_MILLI
    }

    /// The whole milliseconds, or as many as fit.
    pub fn as_millis_u64(&self) -> (millis: u64)
        ensures
            millis == if self.length() / 1_000_000 <= u64::MAX {
                self.length() / 1_000_000
            } else {
                u64::MAX as nat
            },
    {
        let millis = self.as_millis();
        if millis <= u64::MAX as u128 {
            millis as u64
        } else {
            u64::MAX
        }
    }

    pub fn is_zero(&self) -> (zero: bool)
        ensures
            zero == (self.length() == 0),
    {
        self.nanos == 0
    }

    pub fn is_shorter_than(&self, other: &TimeSpan) -> (shorter: bool)
        ensures
            shorter == (self.length() < other.length()),
    {
        self.nanos < other.nanos
    }

    pub fn shorter(self, other: TimeSpan) -> (span: Self)
        ensures
            span.length() == if self.length() <= other.length() {
                self.length()
            } else {
                other.length()
            },
    {
        if self.nanos <= other.nanos {
            self
        } else {
            other
        }
    }

    /// What is left of the span once another is taken off, or nothing.
    pub fn saturating_sub(&self, other: &TimeSpan) -> (span: Self)
        ensures
            span.length() == if self.length() >= other.length() {
                (self.length() - other.length()) as nat
            } else {
                0
            },
    {
        proof {
            use_type_invariant(&*self);
        }
        if self.nanos >= other.nanos {
            TimeSpan { nanos: self.nanos - other.nanos }
        } else {
            TimeSpan { nanos: 0 }
        }
    }

    pub fn divided_by(&self, divisor: u32) -> (span: Self)
        requires
            divisor > 0,
        ensures
            span.length() == self.length() / divisor as nat,
    {
        proof {
            use_type_invariant(&*self);
            assert(self.nanos / divisor as u128 <= self.nanos) by (nonlinear_arith)
                requires
                    divisor > 0,
            ;
        }
        TimeSpan { nanos: self.nanos / divisor as u128 }
    }

    /// The span so many times over, or the longest one.
    pub fn saturating_mul(&self, factor: u32) -> (span: Self)
        ensures
            span.length() == if self.length() * factor as nat <= MAX_SPAN_NANOS {
                self.length() * factor as nat
            } else {
                MAX_SPAN_NANOS as nat
            },
    {
        proof {
            use_type_invariant(&*self);
            assert(0 <= self.nanos * factor <= MAX_SPAN_NANOS * 0x1_0000_0000) by (nonlinear_arith)
                requires
                    self.nanos <= MAX_SPAN_NANOS,
                    factor < 0x1_0000_0000,
            ;
        }
        let nanos = self.nanos * factor as u128;
        Self::from_nanos_saturating(nanos)
    }
}

/// An instant, in milliseconds since an origin.
#[derive(Debug, Clone, Copy, PartialEq, Eq, Structural, PartialOrd, Ord, Hash)]
pub struct MonotonicTime(pub u64);

impl MonotonicTime {
    pub fn from_millis(millis: u64) -> (time: Self)
        ensures
            time == MonotonicTime(millis),
    {
        MonotonicTime(millis)
    }

    /// The instant so many milliseconds later, if it can be told.
    pub fn checked_add_millis(self, millis: u64) -> (time: Option<Self>)
        ensures
            time == if self.0 + millis <= u64::MAX {
                Some(MonotonicTime((self.0 + millis) as u64))
            } else {
                None
            },
    {
        match self.0.checked_add(millis) {
            Some(value) => Some(MonotonicTime(value)),
            None => None,
        }
    }
}

} // verus!
