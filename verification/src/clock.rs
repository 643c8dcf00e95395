//! Wall-clock timestamps for events.
//!
//! The log is ordered by arrival at the room's serialization point, not by
//! these values; the clock's reading depends on the machine and the moment,
//! so nothing is promised of it.

use vstd::prelude::*;

verus! {

/// Relies on chrono::Utc::now: the current time, carried as milliseconds
/// since the Unix epoch.  The result depends on the moment of the call, so
/// nothing is promised of it.
#[verifier::external_body]
pub(crate) fn now_millis() -> i64 {
    chrono::Utc::now().timestamp_millis()
}

} // verus!
