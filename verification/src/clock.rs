//! Instants on the time line, and the one place where the system clock is read.

use vstd::prelude::*;

verus! {

/// An instant, held as whole seconds since 1970-01-01T00:00:00 UTC and the
/// nanoseconds past that second. During a leap second `nanos` runs from
/// 1,000,000,000 up to 1,999,999,999.
///
/// The fields stand in chronological order, so the derived comparison orders
/// instants as [`Timestamp::at_or_after`] does.
#[derive(Clone, Copy, Debug, PartialEq, Eq, Structural, PartialOrd, Ord, Hash)]
pub struct Timestamp {
    pub secs: i64,
    pub nanos: u32,
}

impl Timestamp {
    /// The sub-second part is one that a clock reading can have: below two
    /// seconds' worth of nanoseconds.
    pub open spec fn in_range(self) -> bool {
        self.nanos < 2_000_000_000
    }

    /// `self` is the same instant as `other` or a later one.
    pub open spec fn at_or_after(self, other: Timestamp) -> bool {
        self.secs > other.secs || (self.secs == other.secs && self.nanos >= other.nanos)
    }

    /// Decides [`Timestamp::at_or_after`].
    pub fn is_at_or_after(&self, other: &Timestamp) -> (r: bool)
        ensures
            r == self.at_or_after(*other),
    {
        self.secs > other.secs || (self.secs == other.secs && self.nanos >= other.nanos)
    }

    /// Reads the system clock through `chrono::Local::now` and keeps the
    /// instant it reports: `DateTime::timestamp` for the seconds and
    /// `DateTime::timestamp_subsec_nanos` for the nanoseconds.
    ///
    /// Trusted, not proved. The only claim is chrono's bound on the
    /// sub-second part, which stays below two seconds' worth of nanoseconds
    /// (it passes one second only during a leap second).
    /// Nothing is claimed about the instant itself: the clock may be set
    /// backwards between two readings. chrono refuses to go on when the
    /// system clock reads a time before 1970 or the local offset cannot be
    /// determined.
    #[verifier::external_body]
    pub(crate) fn now() -> (t: Timestamp)
        ensures
            t.in_range(),
    {
        let now = chrono::Local::now();
        Timestamp { secs: now.timestamp(), nanos: now.timestamp_subsec_nanos() }
    }
}

} // verus!
