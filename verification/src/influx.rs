//! The points of the time series that the agent writes.

use vstd::prelude::*;

use crate::clock::unix_nanos;
#[allow(unused_imports)]
use crate::reading::{clock_gave_nanos, machine_gave_name};
#[allow(unused_imports)]
use crate::store::lists_entries;
use crate::store::SharedState;
use crate::text::trim;
#[allow(unused_imports)]
use crate::text::{blank, trimmed_of_blank};
#[allow(unused_imports)]
use crate::types::{known_or, signed_count};
use crate::types::{to_signed, BrokerMetrics, BrokerMetricsPoint, FloatBits};

verus! {

/// The host name of an agent that cannot tell its own.
pub const UNKNOWN_HOST: &'static str = "unknown";

/// `hostname::get` and `OsString::into_string`: the name of the machine, where it
/// can be had and is text. It rests on the machine, so nothing is said of it but that
/// the machine gave it.
#[verifier::external_body]
fn system_hostname() -> (name: Option<String>)
    ensures
        machine_gave_name(name),
{
    hostname::get().ok().and_then(|name| name.into_string().ok())
}

/// The name that points are tagged with: the one that was set, unless it is blank;
/// else the machine's; else [`UNKNOWN_HOST`].
pub open spec fn host_text(configured: Option<String>, system: Option<String>) -> Seq<char> {
    if configured is Some && !blank(configured->0@) {
        configured->0@
    } else if system is Some {
        system->0@
    } else {
        UNKNOWN_HOST@
    }
}

/// A measured quantity, or zero where it is missing.
pub open spec fn float_or_zero(value: Option<FloatBits>) -> FloatBits {
    match value {
        Some(value) => value,
        None => FloatBits { bits: 0 },
    }
}

/// A time, or zero where it could not be told.
pub open spec fn time_or_zero(time: Option<i64>) -> i64 {
    match time {
        Some(time) => time,
        None => 0,
    }
}

/// The time of `point` is one that the clock gave, or zero where 64 bits did not hold
/// it.
pub open spec fn dated_by_the_clock(point: BrokerMetricsPoint) -> bool {
    exists|time: Option<i64>|
        clock_gave_nanos(time) && point.time == #[trigger] time_or_zero(time)
}

/// `point` holds the figures `metrics` of the broker `broker_id` at `time`, tagged
/// with `host`. A missing figure counts as zero.
pub open spec fn is_point_of(
    point: BrokerMetricsPoint,
    host: Seq<char>,
    broker_id: Seq<char>,
    metrics: BrokerMetrics,
    time: i64,
) -> bool {
    &&& point.host@ == host
    &&& point.broker_id@ == broker_id
    &&& point.clients_connected == signed_count(known_or(metrics.clients_connected, 0))
    &&& point.messages_sent == signed_count(known_or(metrics.messages_sent, 0))
    &&& point.messages_received == signed_count(known_or(metrics.messages_received, 0))
    &&& point.bytes_sent == signed_count(known_or(metrics.bytes_sent, 0))
    &&& point.bytes_received == signed_count(known_or(metrics.bytes_received, 0))
    &&& point.cpu_percent == float_or_zero(metrics.cpu_percent)
    &&& point.mem_usage_mb == float_or_zero(metrics.mem_usage_mb)
    &&& point.time == time
}

/// `points` holds one point for each broker of `held`, in some order, each with its
/// own time.
pub open spec fn lists_points(
    points: Seq<BrokerMetricsPoint>,
    host: Seq<char>,
    held: Map<Seq<char>, BrokerMetrics>,
) -> bool {
    &&& forall|i: int|
        0 <= i < points.len() ==> held.contains_key((#[trigger] points[i]).broker_id@)
            && is_point_of(
            points[i],
            host,
            points[i].broker_id@,
            held[points[i].broker_id@],
            points[i].time,
        )
    &&& forall|i: int, j: int|
        0 <= i < j < points.len() ==> (#[trigger] points[i]).broker_id@ != (
        #[trigger] points[j]).broker_id@
    &&& forall|id: Seq<char>| #[trigger]
        held.contains_key(id) ==> exists|i: int|
            0 <= i < points.len() && (#[trigger] points[i]).broker_id@ == id
}

/// The name that was set, unless it is blank.
fn usable_name(configured: Option<String>) -> (r: Option<String>)
    ensures
        r == (if configured is Some && !blank(configured->0@) {
            configured
        } else {
            None
        }),
{
    match configured {
        Some(name) => {
            proof {
                trimmed_of_blank(name@);
            }
            if trim(name.as_str()).unicode_len() > 0 {
                Some(name)
            } else {
                None
            }
        },
        None => None,
    }
}

/// Picks the name that points are tagged with out of the one that was set and the
/// machine's.
pub fn resolve_host(configured: Option<String>, system: Option<String>) -> (r: String)
    ensures
        r@ == host_text(configured, system),
{
    match usable_name(configured) {
        Some(name) => name,
        None => match system {
            Some(name) => name,
            None => UNKNOWN_HOST.to_owned(),
        },
    }
}

/// The name that this agent's points are tagged with: `configured` where it holds
/// more than white space, else the machine's, which is asked for only then.
pub fn agent_host(configured: Option<String>) -> (r: String)
    ensures
        exists|system: Option<String>| r@ == #[trigger] host_text(configured, system),
        configured is Some && !blank(configured->0@) ==> r@ == configured->0@,
        configured is None || blank(configured->0@) ==> exists|system: Option<String>|
            machine_gave_name(system) && r@ == #[trigger] host_text(configured, system),
{
    match usable_name(configured) {
        Some(name) => {
            assert(name@ == host_text(configured, None));
            name
        },
        None => {
            let system = system_hostname();
            assert(host_text(configured, system) == host_text(None, system));
            resolve_host(None, system)
        },
    }
}

/// Makes the point of one broker. A time that could not be told counts as zero.
pub fn metrics_point(host: &str, broker_id: &str, metrics: &BrokerMetrics, time: Option<i64>) -> (r:
    BrokerMetricsPoint)
    ensures
        is_point_of(
            r,
            host@,
            broker_id@,
            *metrics,
            time_or_zero(time),
        ),
{
    BrokerMetricsPoint {
        broker_id: broker_id.to_owned(),
        host: host.to_owned(),
        clients_connected: to_signed(metrics.clients_connected.unwrap_or(0)),
        messages_sent: to_signed(metrics.messages_sent.unwrap_or(0)),
        messages_received: to_signed(metrics.messages_received.unwrap_or(0)),
        bytes_sent: to_signed(metrics.bytes_sent.unwrap_or(0)),
        bytes_received: to_signed(metrics.bytes_received.unwrap_or(0)),
        cpu_percent: metrics.cpu_percent.unwrap_or(FloatBits { bits: 0 }),
        mem_usage_mb: metrics.mem_usage_mb.unwrap_or(FloatBits { bits: 0 }),
        time: time.unwrap_or(0),
    }
}

/// Makes a point of every broker, each with the time at which it was made.
pub fn influx_points(state: &SharedState, host: &str) -> (r: Vec<BrokerMetricsPoint>)
    ensures
        lists_points(r@, host@, state@),
        forall|i: int|
            0 <= i < r@.len() ==> dated_by_the_clock(#[trigger] r@[i]),
{
    let entries = state.entries();
    let mut points: Vec<BrokerMetricsPoint> = Vec::new();
    let n: usize = entries.len();
    let mut i: usize = 0;
    while i < n
        invariant
            n == entries@.len(),
            i <= n,
            points@.len() == i,
            forall|k: int|
                0 <= k < i ==> is_point_of(
                    #[trigger] points@[k],
                    host@,
                    entries@[k].0@,
                    entries@[k].1,
                    points@[k].time,
                ),
            forall|k: int|
                0 <= k < i ==> dated_by_the_clock(#[trigger] points@[k]),
        decreases n - i,
    {
        let time = unix_nanos();
        points.push(metrics_point(host, entries[i].0.as_str(), &entries[i].1, time));
        assert(points@[i as int].time == time_or_zero(time));
        i += 1;
    }
    proof {
        assert forall|a: int, b: int| 0 <= a < b < points@.len() implies (
        #[trigger] points@[a]).broker_id@ != (#[trigger] points@[b]).broker_id@ by {
            assert(entries@[a].0@ != entries@[b].0@);
        }
        assert forall|id: Seq<char>| #[trigger] state@.contains_key(id) implies exists|k: int|
            0 <= k < points@.len() && (#[trigger] points@[k]).broker_id@ == id by {
            let k = choose|k: int| 0 <= k < entries@.len() && (#[trigger] entries@[k]).0@ == id;
            assert(points@[k].broker_id@ == id);
        }
    }
    points
}

/// A count below 2^63 is written as it is.
pub proof fn ordinary_counts_are_kept(count: u64)
    requires
        count <= i64::MAX,
    ensures
        signed_count(count) == count,
{
}

/// Different counts are written differently.
pub proof fn counts_stay_apart(a: u64, b: u64)
    requires
        a != b,
    ensures
        signed_count(a) != signed_count(b),
{
}

/// A name that was set takes precedence over the machine's.
pub proof fn configured_host_wins(configured: String, system: Option<String>)
    requires
        !blank(configured@),
    ensures
        host_text(Some(configured), system) == configured@,
{
}

/// A blank name counts as none.
pub proof fn blank_host_counts_as_none(configured: String, system: Option<String>)
    requires
        blank(configured@),
    ensures
        host_text(Some(configured), system) == host_text(None, system),
{
}

} // verus!
