//! Instants, and the clock that stamps new rows.

use vstd::prelude::*;

verus! {

/// An instant in UTC: whole seconds since the Unix epoch and the nanoseconds
/// into that second.
#[derive(Clone, Copy, Debug, PartialEq, Eq, Structural)]
pub struct Timestamp {
    pub secs: i64,
    pub nanos: u32,
}

impl Timestamp {
    /// `self` is strictly later than `other`.
    pub open spec fn later_than(self, other: Timestamp) -> bool {
        self.secs > other.secs || (self.secs == other.secs && self.nanos > other.nanos)
    }

    /// `self` is `other` or later.
    pub open spec fn not_before(self, other: Timestamp) -> bool {
        !other.later_than(self)
    }

    /// Tells whether `self` is strictly later than `other`.
    pub fn is_later_than(&self, other: &Timestamp) -> (r: bool)
        ensures
            r == self.later_than(*other),
    {
        self.secs > other.secs || (self.secs == other.secs && self.nanos > other.nanos)
    }
}

/// The current instant, read with `chrono::Utc::now`.
///
/// Nothing is promised about which instant comes back beyond what holds of
/// every reading: the sub-second part, which `Utc::now` takes from a
/// `Duration`, is below one second. `Utc::now` itself stops the program on a
/// machine whose clock is set before 1970.
#[verifier::external_body]
pub(crate) fn now() -> (t: Timestamp)
    ensures
        t.nanos < 1_000_000_000,
{
    let at = chrono::Utc::now();
    Timestamp { secs: at.timestamp(), nanos: at.timestamp_subsec_nanos() }
}

} // verus!
