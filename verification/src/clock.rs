//! Points in time and spans of time, as whole nanoseconds.
//!
//! A point in time counts from an epoch that the running program picks once.
//! Sixty-four bits of nanoseconds cover more than five hundred years.
use vstd::prelude::*;

verus! {

/// Nanoseconds in one second.
pub const NANOS_PER_SEC: u64 = 1_000_000_000;

/// Nanoseconds in one millisecond.
pub const NANOS_PER_MILLI: u64 = 1_000_000;

/// A span of time.
#[derive(Clone, Copy, PartialEq, Eq, Structural, Debug)]
pub struct Duration {
    pub nanos: u64,
}

/// A point in time, counted from the program's epoch.
#[derive(Clone, Copy, PartialEq, Eq, Structural, Debug)]
pub struct Instant {
    pub nanos: u64,
}

/// What is left of `a` after taking `b` away, never below zero.
pub open spec fn minus(a: int, b: int) -> int {
    if a > b {
        a - b
    } else {
        0
    }
}

impl Duration {
    /// A span of whole seconds.
    pub fn from_secs(secs: u64) -> (out: Duration)
        requires
            secs * NANOS_PER_SEC <= u64::MAX,
        ensures
            out.nanos == secs * NANOS_PER_SEC,
    {
        Duration { nanos: secs * NANOS_PER_SEC }
    }

    /// A span of whole milliseconds.
    pub fn from_millis(millis: u64) -> (out: Duration)
        requires
            millis * NANOS_PER_MILLI <= u64::MAX,
        ensures
            out.nanos == millis * NANOS_PER_MILLI,
    {
        Duration { nanos: millis * NANOS_PER_MILLI }
    }

    /// Whole seconds in the span, rounded down.
    pub fn as_secs(self) -> (out: u64)
        ensures
            out == self.nanos / NANOS_PER_SEC,
    {
        self.nanos / NANOS_PER_SEC
    }

    /// Whole milliseconds in the span, rounded down.
    pub fn as_millis(self) -> (out: u64)
        ensures
            out == self.nanos / NANOS_PER_MILLI,
    {
        self.nanos / NANOS_PER_MILLI
    }

    /// Is the span empty?
    pub fn is_zero(self) -> (out: bool)
        ensures
            out == (self.nanos == 0),
    {
        self.nanos == 0
    }

    /// What is left after taking `other` away, never below zero.
    pub fn saturating_sub(self, other: Duration) -> (out: Duration)
        ensures
            out.nanos == minus(self.nanos as int, other.nanos as int),
    {
        if self.nanos > other.nanos {
            Duration { nanos: self.nanos - other.nanos }
        } else {
            Duration { nanos: 0 }
        }
    }
}

impl Instant {
    /// How long ago `earlier` was, as seen from here; zero when it lies ahead.
    pub fn saturating_duration_since(self, earlier: Instant) -> (out: Duration)
        ensures
            out.nanos == minus(self.nanos as int, earlier.nanos as int),
    {
        if self.nanos > earlier.nanos {
            Duration { nanos: self.nanos - earlier.nanos }
        } else {
            Duration { nanos: 0 }
        }
    }

    /// The point `span` later; the last representable point when that would lie past it.
    pub fn saturating_add(self, span: Duration) -> (out: Instant)
        ensures
            out.nanos == if self.nanos + span.nanos <= u64::MAX {
                self.nanos + span.nanos
            } else {
                u64::MAX as int
            },
    {
        if span.nanos <= u64::MAX - self.nanos {
            Instant { nanos: self.nanos + span.nanos }
        } else {
            Instant { nanos: u64::MAX }
        }
    }
}

// ---------------------------------------------------------------- laws

/// A span taken away and put back gives the whole again, and nothing is left
/// when as much or more is taken than there is.
pub proof fn what_is_left_makes_up_the_whole(a: int, b: int)
    ensures
        a >= b ==> minus(a, b) + b == a,
        a <= b ==> minus(a, b) == 0,
{
}

/// A second is a thousand milliseconds of a million nanoseconds each.
pub proof fn seconds_are_made_of_milliseconds()
    ensures
        NANOS_PER_SEC == 1000 * NANOS_PER_MILLI,
        NANOS_PER_MILLI == 1000 * 1000,
{
}

} // verus!
