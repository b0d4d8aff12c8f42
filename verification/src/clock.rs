//! The clocks that the agent reads. What they show rests on the machine, so nothing
//! is promised of it but that a clock gave it; the functions that use a time take it
//! as an argument.

use vstd::prelude::*;

#[allow(unused_imports)]
use crate::reading::{clock_gave, clock_gave_nanos, clock_gave_since};

verus! {

/// `std::time::Instant`, as an opaque type.
#[verifier::external_type_specification]
#[verifier::external_body]
pub struct ExInstant(std::time::Instant);

/// `std::time::Instant::now`: the present moment of the monotonic clock.
pub assume_specification[ std::time::Instant::now ]() -> std::time::Instant;

/// `std::time::Instant::elapsed`: the time since the instant, in nanoseconds.
#[verifier::external_body]
fn elapsed_nanos(instant: &std::time::Instant) -> (nanos: u128)
    ensures
        clock_gave_since(*instant, nanos),
{
    instant.elapsed().as_nanos()
}

/// `chrono::Utc::now` and `DateTime::timestamp`: the present Unix time in seconds, from
/// 1970 on. The call panics where the machine's clock stands before 1970.
#[verifier::external_body]
pub(crate) fn unix_secs() -> (secs: i64)
    ensures
        clock_gave(secs),
        secs >= 0,
{
    chrono::Utc::now().timestamp()
}

/// `chrono::Utc::now` and `DateTime::timestamp_nanos_opt`: the present Unix time in
/// nanoseconds, where 64 bits hold it. The call panics where the machine's clock stands
/// before 1970.
#[verifier::external_body]
pub(crate) fn unix_nanos() -> (nanos: Option<i64>)
    ensures
        clock_gave_nanos(nanos),
{
    chrono::Utc::now().timestamp_nanos_opt()
}

/// A monotonic clock that counts from the moment it was made.
pub struct Stopwatch {
    start: std::time::Instant,
}

impl Stopwatch {
    /// The moment from which the clock counts.
    pub closed spec fn started_at(self) -> std::time::Instant {
        self.start
    }

    /// Starts a clock.
    pub(crate) fn start() -> Stopwatch {
        Stopwatch { start: std::time::Instant::now() }
    }

    /// The nanoseconds since the start.
    pub(crate) fn nanos(&self) -> (r: u128)
        ensures
            clock_gave_since(self.started_at(), r),
    {
        elapsed_nanos(&self.start)
    }
}

} // verus!
