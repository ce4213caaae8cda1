//! Spans of time.

use vstd::prelude::*;

verus! {

/// A span of time, in whole nanoseconds.
#[derive(Clone, Copy, Debug, PartialEq, Eq, Structural)]
pub struct Duration {
    /// The number of nanoseconds.
    pub nanos: u128,
}

impl Default for Duration {
    fn default() -> (duration: Self)
        ensures
            duration.nanos == 0,
    {
        Duration { nanos: 0 }
    }
}

impl Duration {
    /// A span of a number of nanoseconds.
    pub fn from_nanos(nanos: u64) -> (duration: Self)
        ensures
            duration.nanos == nanos,
    {
        Duration { nanos: nanos as u128 }
    }

    /// A span of a number of milliseconds.
    pub fn from_millis(millis: u64) -> (duration: Self)
        ensures
            duration.nanos == millis * 1_000_000,
    {
        Duration { nanos: (millis as u128) * 1_000_000 }
    }

    /// The number of nanoseconds.
    pub fn as_nanos(&self) -> (nanos: u128)
        ensures
            nanos == self.nanos,
    {
        self.nanos
    }

    /// The span without another one, or nothing where the other one is longer.
    pub fn saturating_sub(self, other: Self) -> (duration: Self)
        ensures
            duration.nanos == self.nanos.saturating_sub(other.nanos),
            self.nanos >= other.nanos ==> duration.nanos == self.nanos - other.nanos,
            self.nanos < other.nanos ==> duration.nanos == 0,
    {
        Duration { nanos: self.nanos.saturating_sub(other.nanos) }
    }
}

/// The number of nanoseconds, as far as a counter goes.
pub open spec fn counted_nanos(duration: Duration) -> u64 {
    if duration.nanos <= u64::MAX {
        duration.nanos as u64
    } else {
        u64::MAX
    }
}

/// Returns the number of nanoseconds, as far as a counter goes.
pub fn duration_nanos(duration: Duration) -> (nanos: u64)
    ensures
        nanos == counted_nanos(duration),
        duration.nanos <= u64::MAX ==> nanos == duration.nanos,
        duration.nanos > u64::MAX ==> nanos == u64::MAX,
{
    let nanos: u128 = duration.as_nanos();
    if nanos <= u64::MAX as u128 {
        nanos as u64
    } else {
        u64::MAX
    }
}

/// A longer time never counts for less, and a time counts in full as far as the counter goes.
pub proof fn law_longer_counts_for_more(a: Duration, b: Duration)
    requires
        a.nanos <= b.nanos,
    ensures
        counted_nanos(a) <= counted_nanos(b),
        counted_nanos(a) <= a.nanos,
        a.nanos < u64::MAX ==> counted_nanos(a) == a.nanos,
{
}

} // verus!
