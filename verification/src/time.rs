use vstd::prelude::*;

verus! {

/// Nanoseconds in a second.
pub const NANOS_PER_SEC: u128 = 1_000_000_000;

/// The largest span, in nanoseconds: `u64::MAX` seconds and 999 999 999
/// nanoseconds, as for `std::time::Duration`.
pub const MAX_NANOS: u128 = 18_446_744_073_709_551_615_999_999_999;

/// A span of time, counted in nanoseconds (the range of
/// `std::time::Duration`).
#[derive(Clone, Copy, PartialEq, Eq, Structural, Debug)]
pub struct Duration {
    nanos: u128,
}

impl Duration {
    #[verifier::type_invariant]
    closed spec fn inv(self) -> bool {
        self.nanos <= MAX_NANOS
    }

    /// The length of the span in nanoseconds.
    pub closed spec fn ns(self) -> nat {
        self.nanos as nat
    }

    /// Every span is in range.
    pub fn check_range(&self)
        ensures
            self.ns() <= MAX_NANOS,
    {
        proof {
            use_type_invariant(self);
        }
    }

    /// The empty span.
    pub fn zero() -> (r: Self)
        ensures
            r.ns() == 0,
    {
        Duration { nanos: 0 }
    }

    /// A span of `ms` milliseconds.
    pub fn from_millis(ms: u64) -> (r: Self)
        ensures
            r.ns() == ms * 1_000_000,
    {
        assert(ms * 1_000_000 <= MAX_NANOS) by (nonlinear_arith)
            requires
                ms <= u64::MAX,
        ;
        Duration { nanos: ms as u128 * 1_000_000 }
    }

    /// A span of `s` seconds.
    pub fn from_secs(s: u64) -> (r: Self)
        ensures
            r.ns() == s * NANOS_PER_SEC,
    {
        assert(s * NANOS_PER_SEC <= MAX_NANOS) by (nonlinear_arith)
            requires
                s <= u64::MAX,
        ;
        Duration { nanos: s as u128 * NANOS_PER_SEC }
    }

    /// A span of `n` nanoseconds.
    pub fn from_nanos(n: u64) -> (r: Self)
        ensures
            r.ns() == n,
    {
        Duration { nanos: n as u128 }
    }

    /// The length in nanoseconds.
    pub fn as_nanos(&self) -> (r: u128)
        ensures
            r == self.ns(),
            r <= MAX_NANOS,
    {
        proof {
            use_type_invariant(self);
        }
        self.nanos
    }

    /// Whether the span is empty.
    pub fn is_zero(&self) -> (r: bool)
        ensures
            r == (self.ns() == 0),
    {
        self.nanos == 0
    }

    /// The sum of two spans, or the largest span if the sum is out of range.
    pub fn saturating_add(&self, other: Duration) -> (r: Self)
        ensures
            r.ns() == if self.ns() + other.ns() <= MAX_NANOS {
                self.ns() + other.ns()
            } else {
                MAX_NANOS as nat
            },
    {
        proof {
            use_type_invariant(self);
            use_type_invariant(&other);
        }
        if self.nanos <= MAX_NANOS - other.nanos {
            Duration { nanos: self.nanos + other.nanos }
        } else {
            Duration { nanos: MAX_NANOS }
        }
    }

    /// The sum of two spans whose sum is in range.
    pub fn add(&self, other: Duration) -> (r: Self)
        requires
            self.ns() + other.ns() <= MAX_NANOS,
        ensures
            r.ns() == self.ns() + other.ns(),
    {
        Duration { nanos: self.nanos + other.nanos }
    }

    /// The difference of two spans, the first not shorter.
    pub fn sub(&self, other: Duration) -> (r: Self)
        requires
            other.ns() <= self.ns(),
        ensures
            r.ns() == self.ns() - other.ns(),
    {
        proof {
            use_type_invariant(self);
        }
        Duration { nanos: self.nanos - other.nanos }
    }

    /// Whether this span is longer than `other`.
    pub fn gt(&self, other: &Duration) -> (r: bool)
        ensures
            r == (self.ns() > other.ns()),
    {
        self.nanos > other.nanos
    }

    /// Whether this span is at least as long as `other`.
    pub fn ge(&self, other: &Duration) -> (r: bool)
        ensures
            r == (self.ns() >= other.ns()),
    {
        self.nanos >= other.nanos
    }
}

} // verus!
