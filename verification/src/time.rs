//! Points in time, as the queue sees them.

use vstd::prelude::*;

verus! {

/// A point in time: whole seconds since the Unix epoch and the nanoseconds
/// past that second.
#[derive(Clone, Copy, Debug, PartialEq, Eq, Structural)]
pub struct Timestamp {
    pub secs: i64,
    pub nanos: u32,
}

impl Timestamp {
    /// `self` lies strictly before `other`: seconds decide, nanoseconds break ties.
    pub open spec fn before(self, other: Timestamp) -> bool {
        self.secs < other.secs || (self.secs == other.secs && self.nanos < other.nanos)
    }

    /// The point `seconds` after `self` (before it, when negative), kept inside
    /// the range of seconds that a timestamp can hold.
    pub open spec fn plus_seconds(self, seconds: i64) -> Timestamp {
        let sum = self.secs + seconds;
        Timestamp {
            secs: if sum > i64::MAX {
                i64::MAX
            } else if sum < i64::MIN {
                i64::MIN
            } else {
                sum as i64
            },
            nanos: self.nanos,
        }
    }

    /// The point `nanos` nanoseconds past the second `secs`.
    pub fn new(secs: i64, nanos: u32) -> (t: Timestamp)
        ensures
            t == (Timestamp { secs, nanos }),
    {
        Timestamp { secs, nanos }
    }

    /// Decides `before`.
    pub fn is_before(&self, other: &Timestamp) -> (b: bool)
        ensures
            b == self.before(*other),
    {
        self.secs < other.secs || (self.secs == other.secs && self.nanos < other.nanos)
    }

    /// Computes `plus_seconds`.
    pub fn add_seconds(&self, seconds: i64) -> (t: Timestamp)
        ensures
            t == self.plus_seconds(seconds),
    {
        match self.secs.checked_add(seconds) {
            Some(secs) => Timestamp { secs, nanos: self.nanos },
            None => {
                if seconds > 0 {
                    Timestamp { secs: i64::MAX, nanos: self.nanos }
                } else {
                    Timestamp { secs: i64::MIN, nanos: self.nanos }
                }
            },
        }
    }

    /// The current time in UTC, read from the system clock by
    /// `chrono::Utc::now` and taken apart with `DateTime::timestamp` and
    /// `DateTime::timestamp_subsec_nanos`. Nothing is claimed of the reading:
    /// two readings need not even be in order. (`Utc::now` panics where the
    /// system clock stands before 1970.)
    #[verifier::external_body]
    pub(crate) fn now() -> Timestamp {
        let now = chrono::Utc::now();
        Timestamp { secs: now.timestamp(), nanos: now.timestamp_subsec_nanos() }
    }
}

} // verus!
