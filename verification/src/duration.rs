//! A span of time with nanosecond resolution, as used by recording timelines.

use vstd::prelude::*;

verus! {

pub const NANOS_PER_SEC: u128 = 1_000_000_000;
pub const NANOS_PER_MILLI: u128 = 1_000_000;

/// A span of time, counted in whole nanoseconds.
#[derive(Clone, Copy, Debug, PartialEq, Eq, PartialOrd, Ord, Hash, Structural)]
pub struct Duration {
    nanos: u128,
}

impl View for Duration {
    type V = nat;

    closed spec fn view(&self) -> nat {
        self.nanos as nat
    }
}

impl Duration {
    pub fn zero() -> (r: Duration)
        ensures
            r@ == 0,
    {
        Duration { nanos: 0 }
    }

    pub fn from_secs(secs: u64) -> (r: Duration)
        ensures
            r@ == secs * 1_000_000_000,
    {
        Duration { nanos: secs as u128 * NANOS_PER_SEC }
    }

    pub fn from_millis(millis: u64) -> (r: Duration)
        ensures
            r@ == millis * 1_000_000,
    {
        Duration { nanos: millis as u128 * NANOS_PER_MILLI }
    }

    pub fn from_nanos(nanos: u64) -> (r: Duration)
        ensures
            r@ == nanos,
    {
        Duration { nanos: nanos as u128 }
    }

    /// A span of `nanos` nanoseconds, for the whole range of the count.
    pub fn from_nanos_u128(nanos: u128) -> (r: Duration)
        ensures
            r@ == nanos,
    {
        Duration { nanos }
    }

    pub fn as_nanos(&self) -> (r: u128)
        ensures
            r == self@,
    {
        self.nanos
    }

    /// Whole seconds, rounded down.
    pub fn as_secs(&self) -> (r: u128)
        ensures
            r == self@ / 1_000_000_000,
    {
        self.nanos / NANOS_PER_SEC
    }

    /// Whole milliseconds, rounded down.
    /// The nanoseconds beyond the whole seconds.
    pub fn subsec_nanos(&self) -> (r: u32)
        ensures
            r == self@ % 1_000_000_000,
    {
        (self.nanos % NANOS_PER_SEC) as u32
    }

    pub fn is_zero(&self) -> (r: bool)
        ensures
            r == (self@ == 0),
    {
        self.nanos == 0
    }

    pub fn checked_add(&self, other: Duration) -> (r: Option<Duration>)
        ensures
            match r {
                Some(sum) => sum@ == self@ + other@,
                None => self@ + other@ > u128::MAX,
            },
    {
        match self.nanos.checked_add(other.nanos) {
            Some(nanos) => Some(Duration { nanos }),
            None => None,
        }
    }

    pub fn checked_sub(&self, other: Duration) -> (r: Option<Duration>)
        ensures
            match r {
                Some(difference) => difference@ == self@ - other@,
                None => self@ < other@,
            },
    {
        if self.nanos >= other.nanos {
            Some(Duration { nanos: self.nanos - other.nanos })
        } else {
            None
        }
    }

    pub fn saturating_add(&self, other: Duration) -> (r: Duration)
        ensures
            r@ == (if self@ + other@ > u128::MAX { u128::MAX as nat } else { (self@ + other@) as nat }),
    {
        Duration { nanos: self.nanos.saturating_add(other.nanos) }
    }

    pub fn saturating_sub(&self, other: Duration) -> (r: Duration)
        ensures
            r@ == (if self@ < other@ { 0 } else { self@ - other@ }),
    {
        if self.nanos >= other.nanos {
            Duration { nanos: self.nanos - other.nanos }
        } else {
            Duration { nanos: 0 }
        }
    }

    /// The shorter of the two spans.
    pub fn shorter(&self, other: Duration) -> (r: Duration)
        ensures
            r@ == (if self@ <= other@ { self@ } else { other@ }),
    {
        if self.nanos <= other.nanos {
            *self
        } else {
            other
        }
    }

    /// The longer of the two spans.
    pub fn longer(&self, other: Duration) -> (r: Duration)
        ensures
            r@ == (if self@ >= other@ { self@ } else { other@ }),
    {
        if self.nanos >= other.nanos {
            *self
        } else {
            other
        }
    }

    pub fn is_before(&self, other: Duration) -> (r: bool)
        ensures
            r == (self@ < other@),
    {
        self.nanos < other.nanos
    }

    pub fn is_after(&self, other: Duration) -> (r: bool)
        ensures
            r == (self@ > other@),
    {
        self.nanos > other.nanos
    }
}

/// A span never counts more nanoseconds than a `u128` holds.
pub broadcast proof fn lemma_duration_bound(d: Duration)
    ensures
        #[trigger] d@ <= u128::MAX,
{
}

} // verus!
