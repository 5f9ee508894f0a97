//! The wall clock that stamps new transactions.

use vstd::prelude::*;

verus! {

/// A point in time, as `chrono` counts it: whole seconds since
/// 1970-01-01 00:00:00 UTC, and the nanoseconds since that second began.
///
/// The two numbers are kept as they came from the clock. The library never
/// computes with them.
#[derive(Clone, Copy, Debug, PartialEq, Eq, Structural)]
pub struct Timestamp {
    pub secs: i64,
    pub nanos: u32,
}

/// Reads the system clock with `chrono::Utc::now` and takes the instant apart
/// with `DateTime::timestamp` and `DateTime::timestamp_subsec_nanos`.
///
/// Trusted, and nothing is claimed of the result: two calls may differ, and a
/// clock can be set to anything. `chrono` panics when the system clock stands
/// before 1970.
#[verifier::external_body]
pub(crate) fn now() -> Timestamp {
    let instant = chrono::Utc::now();
    Timestamp { secs: instant.timestamp(), nanos: instant.timestamp_subsec_nanos() }
}

} // verus!
