//! What is known of a time that was read off a clock, and of the machine's name.
//!
//! What these are rests on the machine, so no contract says it. A contract can say that
//! a time is one that a clock gave, or that a name is the machine's: the bodies here are
//! closed, so outside this module that is known of what was read and of nothing else.

#[allow(unused_imports)]
use vstd::prelude::*;

verus! {

/// The machine's clock gave the Unix time `secs`. It gives none before 1970.
pub closed spec fn clock_gave(secs: i64) -> bool {
    secs >= 0
}

/// The machine's clock gave the Unix time of `nanos` nanoseconds, or a time that 64
/// bits do not hold.
pub closed spec fn clock_gave_nanos(nanos: Option<i64>) -> bool {
    nanos is Some ==> nanos->0 >= 0
}

/// The monotonic clock gave `nanos` nanoseconds as the time since `since`. It gives no
/// more than 64 bits of seconds.
pub closed spec fn clock_gave_since(since: std::time::Instant, nanos: u128) -> bool {
    nanos < 0x1_0000_0000_0000_0000 * 1_000_000_000
}

/// The machine gave `name` as its own, or gave none.
pub closed spec fn machine_gave_name(name: Option<String>) -> bool {
    name is Some ==> name->0@.len() <= usize::MAX
}

} // verus!
