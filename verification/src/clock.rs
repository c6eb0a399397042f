//! Points in time, and the one place where the clock is read.

use vstd::prelude::*;

verus! {

/// A point in time: seconds since the start of 1970 in UTC, and the
/// nanoseconds within that second.
#[derive(Clone, Copy, Debug, PartialEq, Eq, Hash, Structural)]
pub struct Timestamp {
    pub secs: i64,
    pub nanos: u32,
}

/// Reads the clock with `chrono::Utc::now` and hands on what
/// `DateTime::timestamp` and `DateTime::timestamp_subsec_nanos` say of it.
/// Trusted, and nothing is claimed: two readings need not even be in order.
/// `Utc::now` does not return where the clock of the machine stands before
/// 1970.
#[verifier::external_body]
pub(crate) fn current_time() -> (now: Timestamp) {
    let now = chrono::Utc::now();
    Timestamp { secs: now.timestamp(), nanos: now.timestamp_subsec_nanos() }
}

} // verus!
