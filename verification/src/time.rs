//! Points in time and lengths of time as plain nanosecond counts.
//!
//! The library never reads a clock. Whoever drives it picks an origin once,
//! measures every instant against it and hands the result in.
use vstd::prelude::*;

verus! {

/// A point in time: nanoseconds since the origin that the host picked.
#[derive(Clone, Copy, Debug, PartialEq, Eq, Structural)]
pub struct Timestamp {
    pub nanos: u64,
}

/// A length of time in nanoseconds.
#[derive(Clone, Copy, Debug, PartialEq, Eq, Structural)]
pub struct TimeSpan {
    pub nanos: u64,
}

/// The unit in which a duration is given or shown.
#[derive(Clone, Copy, Debug, PartialEq, Eq, Structural)]
pub enum TimeUnit {
    Nanoseconds,
    Microseconds,
    Milliseconds,
    Seconds,
}

impl Timestamp {
    /// The time that lies between `earlier` and `self`, zero where `earlier`
    /// is not earlier.
    pub open spec fn since(self, earlier: Timestamp) -> nat {
        if self.nanos > earlier.nanos {
            (self.nanos - earlier.nanos) as nat
        } else {
            0
        }
    }

    pub fn from_nanos(nanos: u64) -> (t: Timestamp)
        ensures
            t.nanos == nanos,
    {
        Timestamp { nanos }
    }

    /// The time that has passed at `self` since `earlier`.
    pub fn elapsed_since(&self, earlier: Timestamp) -> (span: TimeSpan)
        ensures
            span.nanos == self.since(earlier),
    {
        if self.nanos > earlier.nanos {
            TimeSpan { nanos: self.nanos - earlier.nanos }
        } else {
            TimeSpan { nanos: 0 }
        }
    }
}

impl TimeSpan {
    pub fn from_nanos(nanos: u64) -> (span: TimeSpan)
        ensures
            span.nanos == nanos,
    {
        TimeSpan { nanos }
    }

    /// A span of whole seconds; the longest span there is where the seconds
    /// do not fit.
    pub fn from_secs(secs: u64) -> (span: TimeSpan)
        ensures
            span.nanos == if secs * 1_000_000_000 > u64::MAX {
                u64::MAX as int
            } else {
                secs * 1_000_000_000
            },
    {
        if secs > u64::MAX / 1_000_000_000 {
            TimeSpan { nanos: u64::MAX }
        } else {
            TimeSpan { nanos: secs * 1_000_000_000 }
        }
    }
}

impl TimeUnit {
    /// How many nanoseconds one of this unit holds.
    pub open spec fn nanos(self) -> int {
        match self {
            TimeUnit::Nanoseconds => 1,
            TimeUnit::Microseconds => 1_000,
            TimeUnit::Milliseconds => 1_000_000,
            TimeUnit::Seconds => 1_000_000_000,
        }
    }
}

} // verus!
