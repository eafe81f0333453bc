//! Instants on the UTC time line, at nanosecond resolution.

use vstd::prelude::*;

verus! {

/// An instant: whole seconds since the Unix epoch and the nanoseconds into
/// that second. During a leap second the nanosecond part runs past one
/// billion, so instants are ordered by seconds first and nanoseconds second.
#[derive(Clone, Copy, Debug, PartialEq, Eq, Structural)]
pub struct Timestamp {
    pub secs: i64,
    pub nanos: u32,
}

/// Seconds in a day.
pub const SECONDS_PER_DAY: i64 = 86_400;

impl Timestamp {
    /// `self` is strictly earlier than `other`.
    pub open spec fn is_before(self, other: Timestamp) -> bool {
        self.secs < other.secs || (self.secs == other.secs && self.nanos < other.nanos)
    }

    /// `self` is strictly earlier than the instant `days` days before `now`.
    pub open spec fn is_older_than(self, now: Timestamp, days: int) -> bool {
        let cutoff = now.secs - days * SECONDS_PER_DAY;
        self.secs < cutoff || (self.secs == cutoff && self.nanos < now.nanos)
    }

    pub fn new(secs: i64, nanos: u32) -> (t: Timestamp)
        ensures
            t.secs == secs,
            t.nanos == nanos,
    {
        Timestamp { secs, nanos }
    }

    /// Whether `self` lies strictly before `other`.
    pub fn before(&self, other: &Timestamp) -> (b: bool)
        ensures
            b == self.is_before(*other),
    {
        self.secs < other.secs || (self.secs == other.secs && self.nanos < other.nanos)
    }

    /// Whether `self` lies strictly before the instant `days` days ahead of
    /// `now` on the past side, for any `days`, however large.
    pub fn older_than(&self, now: &Timestamp, days: i64) -> (b: bool)
        ensures
            b == self.is_older_than(*now, days as int),
    {
        let span: i128 = (days as i128) * 86_400i128;
        let cutoff: i128 = (now.secs as i128) - span;
        let secs: i128 = self.secs as i128;
        secs < cutoff || (secs == cutoff && self.nanos < now.nanos)
    }
}

/// The current instant, read from the system clock through
/// `chrono::Utc::now`. Nothing is promised about the value: the clock may
/// stand anywhere and two readings need not agree.
#[verifier::external_body]
pub(crate) fn clock_now() -> (t: Timestamp)
{
    let now = chrono::Utc::now();
    Timestamp { secs: now.timestamp(), nanos: now.timestamp_subsec_nanos() }
}

} // verus!
