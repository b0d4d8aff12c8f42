//! What holds of the answers over HTTP and of the points of the time series.

#[allow(unused_imports)]
use vstd::prelude::*;

#[allow(unused_imports)]
use crate::http::{
    is_stale, matches_query, response_ids, selected, shows, shows_all, AlertsQuery,
    BrokerMetricsResponse, MetricsEnvelope,
};
#[allow(unused_imports)]
use crate::influx::{
    dated_by_the_clock, host_text, is_point_of, lists_points, time_or_zero,
};
#[allow(unused_imports)]
use crate::order::text_le;
#[allow(unused_imports)]
use crate::reading::{clock_gave, clock_gave_nanos};
#[allow(unused_imports)]
use crate::text::blank;
#[allow(unused_imports)]
use crate::types::{BrokerMetrics, BrokerMetricsPoint, FiredAlert};

verus! {

/// The alert meets every condition that the query sets: on whether it is acknowledged,
/// on its broker and on its metric.
pub proof fn query_asks_for_what_meets_its_conditions(alert: FiredAlert, query: AlertsQuery)
    ensures
        matches_query(alert, query) <==> {
            &&& (query.acknowledged is None || query.acknowledged == Some(alert.acknowledged))
            &&& (query.broker_id is None || query.broker_id->0@ == alert.broker_id@)
            &&& (query.metric is None || query.metric->0@ == alert.metric@)
        },
{
}

/// The answer to a query is put together alert by alert, oldest first: one that meets
/// the conditions comes next, another is left out.
pub proof fn answer_goes_alert_by_alert(
    alerts: Seq<FiredAlert>,
    next: FiredAlert,
    query: AlertsQuery,
)
    ensures
        selected(Seq::empty(), query) == Seq::<FiredAlert>::empty(),
        ({
            let wanted = (query.acknowledged is None || query.acknowledged == Some(
                next.acknowledged,
            )) && (query.broker_id is None || query.broker_id->0@ == next.broker_id@) && (
            query.metric is None || query.metric->0@ == next.metric@);
            selected(alerts.push(next), query) == (if wanted {
                selected(alerts, query).push(next)
            } else {
                selected(alerts, query)
            })
        }),
{
    reveal(Seq::filter);
    assert(alerts.push(next).drop_last() =~= alerts);
    assert(alerts.push(next).last() == next);
}

/// Figures are stale exactly when they were last updated more than the threshold before,
/// or never.
pub proof fn figures_are_stale_past_the_threshold(updated: i64, now: i64, threshold: i64)
    ensures
        is_stale(Some(updated), now, threshold) <==> now > updated + threshold,
        is_stale(None, now, threshold),
{
}

/// An answer shows every figure of a broker as it is held, says whether the figures are
/// stale at the time of the answer, and calls the broker online where both its tasks
/// are.
pub proof fn answer_shows_the_figures_as_held(
    response: BrokerMetricsResponse,
    broker_id: Seq<char>,
    metrics: BrokerMetrics,
    now: i64,
    threshold: i64,
)
    ensures
        shows(response, broker_id, metrics, now, threshold) <==> {
            &&& response.broker_id@ == broker_id
            &&& response.clients_connected == metrics.clients_connected
            &&& response.messages_sent == metrics.messages_sent
            &&& response.messages_received == metrics.messages_received
            &&& response.bytes_sent == metrics.bytes_sent
            &&& response.bytes_received == metrics.bytes_received
            &&& response.cpu_percent == metrics.cpu_percent
            &&& response.mem_usage_mb == metrics.mem_usage_mb
            &&& response.net_rx_bytes == metrics.net_rx_bytes
            &&& response.net_tx_bytes == metrics.net_tx_bytes
            &&& response.last_updated_secs == metrics.last_updated_secs
            &&& response.mqtt_online == metrics.mqtt_online
            &&& response.docker_online == metrics.docker_online
            &&& response.online == (metrics.mqtt_online && metrics.docker_online)
            &&& response.stale == (match metrics.last_updated_secs {
                Some(updated) => now > updated + threshold,
                None => true,
            })
        },
{
}

/// The answer on all brokers lists each one that the agent holds figures of, once, by
/// id, with its figures, and no other; its count is their number.
pub proof fn answer_lists_each_broker_once_in_order(
    envelope: MetricsEnvelope,
    held: Map<Seq<char>, BrokerMetrics>,
    now: i64,
    threshold: i64,
    id: Seq<char>,
)
    requires
        shows_all(envelope, held, now, threshold),
    ensures
        envelope.count == envelope.brokers@.len(),
        held.contains_key(id) <==> exists|i: int|
            0 <= i < envelope.brokers@.len() && (#[trigger] envelope.brokers@[i]).broker_id@ == id,
        forall|i: int|
            0 <= i < envelope.brokers@.len() && (#[trigger] envelope.brokers@[i]).broker_id@ == id
                ==> shows(envelope.brokers@[i], id, held[id], now, threshold),
        forall|i: int, j: int|
            0 <= i < j < envelope.brokers@.len() ==> {
                let earlier = (#[trigger] envelope.brokers@[i]).broker_id@;
                let later = (#[trigger] envelope.brokers@[j]).broker_id@;
                earlier != later && text_le(earlier, later)
            },
{
    let ids = response_ids(envelope.brokers@);
    assert(ids.len() == envelope.brokers@.len());
    assert forall|i: int| 0 <= i < ids.len() implies #[trigger] ids[i]
        == envelope.brokers@[i].broker_id@ by {}
    if held.contains_key(id) {
        assert(ids.to_set().contains(id));
        let i = ids.index_of(id);
        assert(envelope.brokers@[i].broker_id@ == id);
    }
    if exists|i: int|
        0 <= i < envelope.brokers@.len() && (#[trigger] envelope.brokers@[i]).broker_id@ == id {
        let i = choose|i: int|
            0 <= i < envelope.brokers@.len() && (#[trigger] envelope.brokers@[i]).broker_id@ == id;
        assert(ids[i] == id);
        assert(ids.to_set().contains(id));
    }
    assert forall|i: int, j: int| 0 <= i < j < envelope.brokers@.len() implies {
        let earlier = (#[trigger] envelope.brokers@[i]).broker_id@;
        let later = (#[trigger] envelope.brokers@[j]).broker_id@;
        earlier != later && text_le(earlier, later)
    } by {
        assert(ids[i] != ids[j]);
        assert(text_le(ids[i], ids[j]));
    }
}

/// A present answer judges staleness at a time that the clock gave: figures that were
/// updated at most the threshold before that time are shown as fresh, older ones as
/// stale.
pub proof fn present_answer_judges_by_the_clock(
    envelope: MetricsEnvelope,
    held: Map<Seq<char>, BrokerMetrics>,
    threshold: i64,
)
    requires
        exists|now: i64| clock_gave(now) && #[trigger] shows_all(envelope, held, now, threshold),
    ensures
        exists|now: i64|
            #![trigger clock_gave(now)]
            {
                &&& clock_gave(now)
                &&& forall|i: int|
                    0 <= i < envelope.brokers@.len() ==> ((
                    #[trigger] envelope.brokers@[i]).stale <==> match envelope.brokers@[i].last_updated_secs {
                        Some(updated) => now - updated > threshold,
                        None => true,
                    })
            },
{
    let now = choose|now: i64| clock_gave(now) && #[trigger] shows_all(envelope, held, now, threshold);
    assert(clock_gave(now));
}

/// The host is the one that was set, unless that is blank; else the machine's; else it
/// is unknown.
pub proof fn host_is_the_first_that_is_known(configured: String, system: String)
    ensures
        !blank(configured@) ==> host_text(Some(configured), None) == configured@,
        !blank(configured@) ==> host_text(Some(configured), Some(system)) == configured@,
        blank(configured@) ==> host_text(Some(configured), Some(system)) == system@,
        blank(configured@) ==> host_text(Some(configured), None) == "unknown"@,
        host_text(None, Some(system)) == system@,
        host_text(None, None) == "unknown"@,
{
}

/// A count of the time series is the broker's, as a signed number of the same 64 bits;
/// one that is not known is zero.
pub open spec fn counts_as(written: i64, count: Option<u64>) -> bool {
    match count {
        Some(n) => written == n || written + 0x1_0000_0000_0000_0000 == n,
        None => written == 0,
    }
}

/// A point holds the broker's figures under its id and the agent's host, at its time. A
/// figure that is not known is zero.
pub proof fn point_holds_the_figures(
    point: BrokerMetricsPoint,
    host: Seq<char>,
    broker_id: Seq<char>,
    metrics: BrokerMetrics,
    time: i64,
)
    requires
        is_point_of(point, host, broker_id, metrics, time),
    ensures
        point.host@ == host,
        point.broker_id@ == broker_id,
        point.time == time,
        counts_as(point.clients_connected, metrics.clients_connected),
        counts_as(point.messages_sent, metrics.messages_sent),
        counts_as(point.messages_received, metrics.messages_received),
        counts_as(point.bytes_sent, metrics.bytes_sent),
        counts_as(point.bytes_received, metrics.bytes_received),
        metrics.cpu_percent matches Some(f) ==> point.cpu_percent == f,
        metrics.cpu_percent is None ==> point.cpu_percent.bits == 0,
        metrics.mem_usage_mb matches Some(f) ==> point.mem_usage_mb == f,
        metrics.mem_usage_mb is None ==> point.mem_usage_mb.bits == 0,
{
}

/// There is one point for each broker that the agent holds figures of, with those
/// figures, and no other.
pub proof fn each_broker_has_one_point(
    points: Seq<BrokerMetricsPoint>,
    host: Seq<char>,
    held: Map<Seq<char>, BrokerMetrics>,
    id: Seq<char>,
)
    requires
        lists_points(points, host, held),
    ensures
        held.contains_key(id) <==> exists|i: int|
            0 <= i < points.len() && (#[trigger] points[i]).broker_id@ == id,
        forall|i: int|
            0 <= i < points.len() && (#[trigger] points[i]).broker_id@ == id ==> is_point_of(
                points[i],
                host,
                id,
                held[id],
                points[i].time,
            ),
        forall|i: int, j: int|
            0 <= i < points.len() && 0 <= j < points.len() && (#[trigger] points[i]).broker_id@ == (
            #[trigger] points[j]).broker_id@ ==> i == j,
{
}

/// A point is dated with a time that the clock gave, or with zero where 64 bits did not
/// hold it.
pub proof fn point_is_dated_by_the_clock(point: BrokerMetricsPoint)
    requires
        dated_by_the_clock(point),
    ensures
        clock_gave_nanos(Some(point.time)) || (clock_gave_nanos(None) && point.time == 0),
{
    let time = choose|time: Option<i64>|
        clock_gave_nanos(time) && point.time == #[trigger] time_or_zero(time);
    assert(time == Some(point.time) || time is None);
}

/// A time that could be told is itself, another counts as zero.
pub proof fn untold_time_is_zero(time: i64)
    ensures
        time_or_zero(Some(time)) == time,
        time_or_zero(None) == 0,
{
}

} // verus!
