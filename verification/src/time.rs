//! Lengths of time and moments.
use std::time::SystemTime;
use vstd::prelude::*;

verus! {

/// `std::time::SystemTime`, a moment on the wall clock. It is handed on, never computed with.
#[verifier::external_type_specification]
#[verifier::external_body]
pub struct ExSystemTime(SystemTime);

/// A length of time.
#[derive(Clone, Copy, Debug, PartialEq, Eq, Structural)]
pub struct Duration {
    pub nanos: u128,
}

/// A moment on the monotonic clock, counted from a start that never changes.
#[derive(Clone, Copy, Debug, PartialEq, Eq, Structural)]
pub struct Instant {
    pub nanos: u128,
}

/// The longest length of time that a caller can ask for: 2^64 seconds, less a nanosecond.
pub open spec fn max_nanos() -> nat {
    18_446_744_073_709_551_615_999_999_999
}

impl Duration {
    pub fn from_millis(millis: u64) -> (r: Self)
        ensures
            r.nanos == millis * 1_000_000,
            r.in_range(),
    {
        Duration { nanos: millis as u128 * 1_000_000 }
    }

    pub fn from_secs(secs: u64) -> (r: Self)
        ensures
            r.nanos == secs * 1_000_000_000,
            r.in_range(),
    {
        Duration { nanos: secs as u128 * 1_000_000_000 }
    }

    /// A length that a caller can ask for.
    pub open spec fn in_range(self) -> bool {
        self.nanos <= max_nanos()
    }

    /// Twice as long, but no longer than `limit`.
    pub fn doubled_up_to(self, limit: Duration) -> (r: Self)
        requires
            self.in_range(),
        ensures
            r.nanos == if 2 * self.nanos <= limit.nanos {
                2 * self.nanos
            } else {
                limit.nanos as int
            },
    {
        let doubled: u128 = self.nanos * 2;
        if doubled <= limit.nanos {
            Duration { nanos: doubled }
        } else {
            limit
        }
    }
}

impl Instant {
    /// A moment that a clock can show.
    pub open spec fn in_range(self) -> bool {
        self.nanos <= max_nanos()
    }

    /// The moment that lies `length` later.
    pub fn after(self, length: Duration) -> (r: Self)
        requires
            self.in_range(),
            length.in_range(),
        ensures
            r.nanos == self.nanos + length.nanos,
    {
        Instant { nanos: self.nanos + length.nanos }
    }

    /// How long ago `earlier` was; no time at all if it is not past.
    pub fn since(self, earlier: Instant) -> (r: Duration)
        ensures
            r.nanos == if self.nanos >= earlier.nanos {
                self.nanos - earlier.nanos
            } else {
                0
            },
    {
        if self.nanos >= earlier.nanos {
            Duration { nanos: self.nanos - earlier.nanos }
        } else {
            Duration { nanos: 0 }
        }
    }
}

} // verus!
