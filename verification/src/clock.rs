//! The moment at which a project was last changed.

use vstd::prelude::*;

verus! {

/// An instant, as the number of whole seconds since 1970-01-01T00:00:00 UTC
/// (leap seconds not counted) and the nanoseconds past that second.
/// During a leap second `nanos` runs past 999_999_999, as chrono reports it.
#[derive(Clone, Copy, Debug, PartialEq, Eq, Structural)]
pub struct Timestamp {
    pub secs: i64,
    pub nanos: u32,
}

impl Timestamp {
    /// `self` is an earlier instant than `other`.
    pub open spec fn is_before(self, other: Timestamp) -> bool {
        self.secs < other.secs || (self.secs == other.secs && self.nanos < other.nanos)
    }

    /// Whether `self` is an earlier instant than `other`.
    pub fn before(&self, other: &Timestamp) -> (r: bool)
        ensures
            r == self.is_before(*other),
    {
        self.secs < other.secs || (self.secs == other.secs && self.nanos < other.nanos)
    }
}

/// Reads the system clock through `chrono::Local::now`, and keeps of the
/// result its `timestamp()` and `timestamp_subsec_nanos()`.  Nothing is
/// claimed of the instant itself (it is whatever the clock says); chrono's
/// `NaiveTime` keeps its fraction below two billion nanoseconds.
/// `chrono::Utc::now` panics when the system clock is set before 1970, and
/// the look-up of the local offset can panic on unreadable time-zone data;
/// these are states of the machine, which no `requires` can exclude.
#[verifier::external_body]
pub(crate) fn now() -> (t: Timestamp)
    ensures
        t.nanos < 2_000_000_000,
{
    let now = chrono::Local::now();
    Timestamp { secs: now.timestamp(), nanos: now.timestamp_subsec_nanos() }
}

} // verus!
