//! Points in time, as microseconds since the Unix epoch.

use vstd::prelude::*;

verus! {

/// A point in time, as microseconds since 1970-01-01T00:00:00Z.
#[derive(Clone, Copy, Debug, PartialEq, Eq, Structural, PartialOrd, Ord, Hash)]
pub struct Timestamp {
    pub micros: i64,
}

impl Timestamp {
    /// A timestamp from a number of microseconds since the epoch.
    pub fn from_micros(micros: i64) -> (r: Timestamp)
        ensures
            r.micros == micros,
    {
        Timestamp { micros }
    }

    /// Microseconds since the epoch.
    pub fn micros(&self) -> (r: i64)
        ensures
            r == self.micros,
    {
        self.micros
    }
}

/// Relies on chrono's `From<SystemTime> for DateTime<Utc>` and
/// `DateTime::timestamp_micros`: the current system time, which may lie
/// before the epoch (then it is negative). Nothing is promised of its value.
#[verifier::external_body]
pub(crate) fn now() -> (r: Timestamp) {
    Timestamp {
        micros: chrono::DateTime::<chrono::Utc>::from(std::time::SystemTime::now()).timestamp_micros(),
    }
}

} // verus!
