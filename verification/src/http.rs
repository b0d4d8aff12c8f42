//! What the agent answers to HTTP requests.

use vstd::prelude::*;

use crate::alerts::AlertBook;
use crate::clock::unix_secs;
use crate::config::{BrokerConfig, IntervalsConfig};
#[allow(unused_imports)]
use crate::ids::texts;
use crate::order::sort_by_name;
#[allow(unused_imports)]
use crate::order::{
    names_of, same_items_have_the_same_names, sorted_listing_is_unique, text_sorted,
};
#[allow(unused_imports)]
use crate::reading::clock_gave;
use crate::registry::{list_brokers, spawn_broker, stop_broker, BrokerRuntime, Fleet, SpawnOrder};
#[allow(unused_imports)]
use crate::registry::FleetView;
#[allow(unused_imports)]
use crate::store::lists_entries;
use crate::text::{same_text, trim};
#[allow(unused_imports)]
use crate::text::{blank, trimmed_of_blank};
#[allow(unused_imports)]
use crate::types::signed_count;
use crate::types::{to_signed, BrokerMetrics, FiredAlert, FloatBits};

verus! {

/// The status of an answer.
#[derive(Clone, Copy, Debug, PartialEq, Eq, Structural)]
pub enum Status {
    Created,
    NoContent,
    BadRequest,
    NotFound,
}

/// Which alerts are asked for. An absent condition lets every alert through.
#[derive(Debug)]
pub struct AlertsQuery {
    pub acknowledged: Option<bool>,
    pub broker_id: Option<String>,
    pub metric: Option<String>,
}

/// The alerts that were asked for.
#[derive(Debug, PartialEq, Eq)]
pub struct AlertsEnvelope {
    pub alerts: Vec<FiredAlert>,
    pub count: usize,
}

/// The figures of one broker.
#[derive(Debug, PartialEq, Eq)]
pub struct BrokerMetricsResponse {
    pub broker_id: String,
    pub clients_connected: Option<u64>,
    pub messages_sent: Option<u64>,
    pub messages_received: Option<u64>,
    pub bytes_sent: Option<u64>,
    pub bytes_received: Option<u64>,
    pub cpu_percent: Option<FloatBits>,
    pub mem_usage_mb: Option<FloatBits>,
    pub net_rx_bytes: Option<u64>,
    pub net_tx_bytes: Option<u64>,
    /// Unix time, in seconds, of the last update.
    pub last_updated_secs: Option<i64>,
    /// The latest figures are older than two MQTT scrape intervals.
    pub stale: bool,
    pub mqtt_online: bool,
    pub docker_online: bool,
    /// Both of the broker's tasks are healthy.
    pub online: bool,
}

/// The figures of all brokers.
#[derive(Debug, PartialEq, Eq)]
pub struct MetricsEnvelope {
    pub brokers: Vec<BrokerMetricsResponse>,
    pub count: usize,
}

/// The ids of all registered brokers.
#[derive(Debug, PartialEq, Eq)]
pub struct BrokersEnvelope {
    pub brokers: Vec<String>,
    pub count: usize,
}

/// What was wrong with a request.
#[derive(Debug, PartialEq, Eq)]
pub struct ErrorResponse {
    pub error: String,
}

/// All that the agent answers from.
pub struct AppState<H> {
    pub fleet: Fleet<H>,
    /// Two MQTT scrape intervals.
    pub stale_threshold_secs: i64,
    pub runtime: BrokerRuntime,
    pub alerts: AlertBook,
}

/// What comes of a request to register a broker.
#[derive(Debug, PartialEq, Eq)]
pub enum Registration<H> {
    /// The request was turned down.
    Rejected(ErrorResponse),
    /// The order is to be carried out; the id is told to the client.
    Registered { id: String, order: SpawnOrder<H> },
}

/// What comes of a request to take a broker off.
#[derive(Debug, PartialEq, Eq)]
pub struct Removal<H> {
    pub status: Status,
    /// The handles to abort.
    pub abort: Vec<H>,
}

/// The alert is among those that `query` asks for.
pub open spec fn matches_query(alert: FiredAlert, query: AlertsQuery) -> bool {
    &&& query.acknowledged is Some ==> alert.acknowledged == query.acknowledged->0
    &&& query.broker_id is Some ==> alert.broker_id@ == query.broker_id->0@
    &&& query.metric is Some ==> alert.metric@ == query.metric->0@
}

/// The alerts of a list that `query` asks for, in the order of the list.
pub open spec fn selected(alerts: Seq<FiredAlert>, query: AlertsQuery) -> Seq<FiredAlert> {
    alerts.filter(|alert: FiredAlert| matches_query(alert, query))
}

/// Figures last updated at `last_updated` are stale at `now`: they are older than
/// the threshold, or there are none.
pub open spec fn is_stale(last_updated: Option<i64>, now: i64, threshold: i64) -> bool {
    match last_updated {
        Some(time) => now - time > threshold,
        None => true,
    }
}

/// `response` shows the figures `metrics` of the broker `broker_id`.
pub open spec fn shows(
    response: BrokerMetricsResponse,
    broker_id: Seq<char>,
    metrics: BrokerMetrics,
    now: i64,
    threshold: i64,
) -> bool {
    &&& response.broker_id@ == broker_id
    &&& response.clients_connected == metrics.clients_connected
    &&& response.messages_sent == metrics.messages_sent
    &&& response.messages_received == metrics.messages_received
    &&& response.bytes_sent == metrics.bytes_sent
    &&& response.bytes_received == metrics.bytes_received
    &&& response.cpu_percent == metrics.cpu_percent
    &&& response.mem_usage_mb == metrics.mem_usage_mb
    &&& response.net_rx_bytes == metrics.net_rx_bytes
    &&& response.net_tx_bytes == metrics.net_tx_bytes
    &&& response.last_updated_secs == metrics.last_updated_secs
    &&& response.stale == is_stale(metrics.last_updated_secs, now, threshold)
    &&& response.mqtt_online == metrics.mqtt_online
    &&& response.docker_online == metrics.docker_online
    &&& response.online == (metrics.mqtt_online && metrics.docker_online)
}

/// The ids of a list of figures.
pub open spec fn response_ids(responses: Seq<BrokerMetricsResponse>) -> Seq<Seq<char>> {
    responses.map_values(|response: BrokerMetricsResponse| response.broker_id@)
}

/// `envelope` shows every broker of `held` once, sorted by id.
pub open spec fn shows_all(
    envelope: MetricsEnvelope,
    held: Map<Seq<char>, BrokerMetrics>,
    now: i64,
    threshold: i64,
) -> bool {
    let ids = response_ids(envelope.brokers@);
    &&& envelope.count == envelope.brokers@.len()
    &&& text_sorted(ids)
    &&& ids.no_duplicates()
    &&& ids.to_set() == held.dom()
    &&& forall|i: int|
        0 <= i < envelope.brokers@.len() ==> shows(
            #[trigger] envelope.brokers@[i],
            envelope.brokers@[i].broker_id@,
            held[envelope.brokers@[i].broker_id@],
            now,
            threshold,
        )
}

/// The age in seconds beyond which figures count as stale: two MQTT scrape
/// intervals.
pub fn stale_threshold(intervals: &IntervalsConfig) -> (r: i64)
    requires
        2 * intervals.mqtt_scrape_secs <= u64::MAX,
    ensures
        r == signed_count((2 * intervals.mqtt_scrape_secs) as u64),
        2 * intervals.mqtt_scrape_secs <= i64::MAX ==> r == 2 * intervals.mqtt_scrape_secs,
{
    to_signed(2 * intervals.mqtt_scrape_secs)
}

fn asked_for(alert: &FiredAlert, query: &AlertsQuery) -> (r: bool)
    ensures
        r == matches_query(*alert, *query),
{
    if let Some(acknowledged) = query.acknowledged {
        if alert.acknowledged != acknowledged {
            return false;
        }
    }
    if let Some(broker_id) = &query.broker_id {
        if !same_text(alert.broker_id.as_str(), broker_id.as_str()) {
            return false;
        }
    }
    if let Some(metric) = &query.metric {
        if !same_text(alert.metric.as_str(), metric.as_str()) {
            return false;
        }
    }
    true
}

/// Answers a request for alerts.
pub fn get_alerts<H>(state: &AppState<H>, query: &AlertsQuery) -> (r: AlertsEnvelope)
    ensures
        r.alerts@ == selected(state.alerts@.alerts, *query),
        r.count == r.alerts@.len(),
{
    let all = state.alerts.alerts();
    let mut alerts: Vec<FiredAlert> = Vec::new();
    let n: usize = all.len();
    let mut i: usize = 0;
    assert(all@.take(0).filter(|alert: FiredAlert| matches_query(alert, *query))
        =~= Seq::<FiredAlert>::empty()) by {
        reveal(Seq::filter);
    }
    while i < n
        invariant
            n == all@.len(),
            i <= n,
            alerts@ == selected(all@.take(i as int), *query),
        decreases n - i,
    {
        proof {
            reveal(Seq::filter);
            assert(all@.take(i as int + 1).drop_last() =~= all@.take(i as int));
            assert(all@.take(i as int + 1).last() == all@[i as int]);
        }
        if asked_for(&all[i], query) {
            alerts.push(all[i].clone());
        }
        i += 1;
    }
    assert(all@.take(n as int) =~= all@);
    let count: usize = alerts.len();
    AlertsEnvelope { alerts, count }
}

/// The figures of one broker as they are shown at `now`.
pub fn metrics_response(broker_id: String, metrics: &BrokerMetrics, now: i64, threshold: i64) -> (r:
    BrokerMetricsResponse)
    ensures
        r.broker_id == broker_id,
        shows(r, broker_id@, *metrics, now, threshold),
{
    let stale = match metrics.last_updated_secs {
        Some(time) => now as i128 - time as i128 > threshold as i128,
        None => true,
    };
    BrokerMetricsResponse {
        broker_id,
        clients_connected: metrics.clients_connected,
        messages_sent: metrics.messages_sent,
        messages_received: metrics.messages_received,
        bytes_sent: metrics.bytes_sent,
        bytes_received: metrics.bytes_received,
        cpu_percent: metrics.cpu_percent,
        mem_usage_mb: metrics.mem_usage_mb,
        net_rx_bytes: metrics.net_rx_bytes,
        net_tx_bytes: metrics.net_tx_bytes,
        last_updated_secs: metrics.last_updated_secs,
        stale,
        mqtt_online: metrics.mqtt_online,
        docker_online: metrics.docker_online,
        online: metrics.mqtt_online && metrics.docker_online,
    }
}

/// Answers a request for the figures of all brokers at the Unix time `now`.
pub fn get_metrics_at<H>(state: &AppState<H>, now: i64) -> (r: MetricsEnvelope)
    ensures
        shows_all(r, state.fleet@.metrics, now, state.stale_threshold_secs),
{
    let entries = state.fleet.state.entries();
    let ghost unsorted = entries@;
    let sorted = sort_by_name(entries);
    let ghost held = state.fleet@.metrics;
    proof {
        assert(names_of(unsorted).no_duplicates()) by {
            assert forall|i: int, j: int|
                0 <= i < unsorted.len() && 0 <= j < unsorted.len() && i != j implies names_of(
                unsorted,
            )[i] != names_of(unsorted)[j] by {
                assert(unsorted[i].0@ != unsorted[j].0@);
            }
        }
        same_items_have_the_same_names(unsorted, sorted@);
        assert forall|i: int| 0 <= i < sorted@.len() implies held[(
        #[trigger] sorted@[i]).0@] == sorted@[i].1 by {
            assert(unsorted.contains(sorted@[i]));
        }
        assert(names_of(unsorted).to_set() =~= held.dom()) by {
            assert forall|id: Seq<char>| #[trigger]
                held.contains_key(id) == names_of(unsorted).contains(id) by {
                if held.contains_key(id) {
                    let i = choose|i: int|
                        0 <= i < unsorted.len() && (#[trigger] unsorted[i]).0@ == id;
                    assert(names_of(unsorted)[i] == id);
                }
                if names_of(unsorted).contains(id) {
                    let i = names_of(unsorted).index_of(id);
                    assert(held.contains_key(unsorted[i].0@));
                }
            }
        }
    }
    let mut brokers: Vec<BrokerMetricsResponse> = Vec::new();
    let n: usize = sorted.len();
    let mut i: usize = 0;
    while i < n
        invariant
            n == sorted@.len(),
            i <= n,
            brokers@.len() == i,
            forall|k: int|
                0 <= k < n ==> held[(#[trigger] sorted@[k]).0@] == sorted@[k].1,
            forall|k: int|
                0 <= k < i ==> (#[trigger] brokers@[k]).broker_id@ == sorted@[k].0@ && shows(
                    brokers@[k],
                    brokers@[k].broker_id@,
                    held[brokers@[k].broker_id@],
                    now,
                    state.stale_threshold_secs,
                ),
        decreases n - i,
    {
        let response = metrics_response(
            sorted[i].0.clone(),
            &sorted[i].1,
            now,
            state.stale_threshold_secs,
        );
        brokers.push(response);
        i += 1;
    }
    assert(response_ids(brokers@) =~= names_of(sorted@));
    let count: usize = brokers.len();
    MetricsEnvelope { brokers, count }
}

/// [`get_metrics_at`] at the present time.
pub fn get_metrics<H>(state: &AppState<H>) -> (r: MetricsEnvelope)
    ensures
        exists|now: i64|
            clock_gave(now) && #[trigger] shows_all(
                r,
                state.fleet@.metrics,
                now,
                state.stale_threshold_secs,
            ),
{
    let now: i64 = unix_secs();
    get_metrics_at(state, now)
}

/// Answers a request for the registered brokers.
pub fn get_brokers<H>(state: &AppState<H>) -> (r: BrokersEnvelope)
    ensures
        r.count == r.brokers@.len(),
        texts(r.brokers@).to_set() == state.fleet@.handles.dom(),
        texts(r.brokers@).no_duplicates(),
        text_sorted(texts(r.brokers@)),
{
    let ids = list_brokers(&state.fleet.registry);
    let mut items: Vec<(String, ())> = Vec::new();
    let n: usize = ids.len();
    let mut i: usize = 0;
    while i < n
        invariant
            n == ids@.len(),
            i <= n,
            items@.len() == i,
            forall|k: int| 0 <= k < i ==> (#[trigger] items@[k]).0@ == ids@[k]@,
        decreases n - i,
    {
        items.push((ids[i].clone(), ()));
        i += 1;
    }
    assert(names_of(items@) =~= texts(ids@));
    let ghost unsorted = items@;
    let sorted = sort_by_name(items);
    proof {
        same_items_have_the_same_names(unsorted, sorted@);
    }
    let mut brokers: Vec<String> = Vec::new();
    let m: usize = sorted.len();
    let mut j: usize = 0;
    while j < m
        invariant
            m == sorted@.len(),
            j <= m,
            brokers@.len() == j,
            forall|k: int| 0 <= k < j ==> (#[trigger] brokers@[k])@ == sorted@[k].0@,
        decreases m - j,
    {
        brokers.push(sorted[j].0.clone());
        j += 1;
    }
    assert(texts(brokers@) =~= names_of(sorted@));
    let count: usize = brokers.len();
    BrokersEnvelope { brokers, count }
}

/// Answers a request to register a broker. A blank id is turned down and changes
/// nothing. A broker that is registered already is replaced, so the same request
/// can be made twice without leaking tasks.
pub fn post_broker<H>(state: &mut AppState<H>, broker: BrokerConfig) -> (r: (
    Status,
    Registration<H>,
))
    ensures
        blank(broker.id@) ==> {
            &&& *final(state) == *old(state)
            &&& r.0 == Status::BadRequest
            &&& r.1 matches Registration::Rejected(response)
            &&& response.error@ == "broker id must not be empty"@
        },
        !blank(broker.id@) ==> {
            &&& final(state).fleet@ == old(state).fleet@.cleared_for(broker.id@)
            &&& final(state).stale_threshold_secs == old(state).stale_threshold_secs
            &&& final(state).runtime == old(state).runtime
            &&& final(state).alerts == old(state).alerts
            &&& r.0 == Status::Created
            &&& r.1 matches Registration::Registered { id, order }
            &&& id@ == broker.id@
            &&& order.abort@ == old(state).fleet@.tasks_of(broker.id@)
            &&& order.broker == broker
            &&& order.mqtt_interval == old(state).runtime.mqtt_interval
            &&& order.docker_interval == old(state).runtime.docker_interval
        },
{
    proof {
        trimmed_of_blank(broker.id@);
    }
    if trim(broker.id.as_str()).unicode_len() == 0 {
        let response = ErrorResponse { error: "broker id must not be empty".to_owned() };
        return (Status::BadRequest, Registration::Rejected(response));
    }
    let id = broker.id.clone();
    let runtime = state.runtime;
    let order = spawn_broker(broker, &runtime, &mut state.fleet);
    (Status::Created, Registration::Registered { id, order })
}

/// Answers a request to take a broker off.
pub fn delete_broker<H>(state: &mut AppState<H>, broker_id: &str) -> (r: Removal<H>)
    ensures
        final(state).fleet@ == old(state).fleet@.deleted(broker_id@),
        final(state).stale_threshold_secs == old(state).stale_threshold_secs,
        final(state).runtime == old(state).runtime,
        final(state).alerts == old(state).alerts,
        r.abort@ == old(state).fleet@.tasks_of(broker_id@),
        r.status == (if old(state).fleet@.handles.contains_key(broker_id@) {
            Status::NoContent
        } else {
            Status::NotFound
        }),
{
    match stop_broker(broker_id, &mut state.fleet) {
        Some(abort) => Removal { status: Status::NoContent, abort },
        None => Removal { status: Status::NotFound, abort: Vec::new() },
    }
}

/// A query without conditions asks for every alert.
pub proof fn open_query_selects_all(alerts: Seq<FiredAlert>, query: AlertsQuery)
    requires
        query.acknowledged is None,
        query.broker_id is None,
        query.metric is None,
    ensures
        selected(alerts, query) == alerts,
    decreases alerts.len(),
{
    reveal(Seq::filter);
    if alerts.len() > 0 {
        open_query_selects_all(alerts.drop_last(), query);
        assert(alerts.drop_last().push(alerts.last()) =~= alerts);
    }
}

/// An alert is selected exactly when it is in the list and the query asks for it.
pub proof fn selected_alerts_are_those_asked_for(
    alerts: Seq<FiredAlert>,
    query: AlertsQuery,
    alert: FiredAlert,
)
    ensures
        selected(alerts, query).contains(alert) == (alerts.contains(alert) && matches_query(
            alert,
            query,
        )),
{
    broadcast use vstd::seq_lib::group_seq_properties;

    let pred = |a: FiredAlert| matches_query(a, query);
    if selected(alerts, query).contains(alert) {
        alerts.lemma_filter_contains_rev(pred, alert);
    }
    if alerts.contains(alert) && matches_query(alert, query) {
        assert(pred(alert));
        assert(alerts.filter(pred).contains(alert));
    }
}

/// Whatever the agent holds of a broker is shown: one place of the answer, and only
/// one, has the broker's figures.
pub proof fn held_figures_are_shown(
    envelope: MetricsEnvelope,
    held: Map<Seq<char>, BrokerMetrics>,
    now: i64,
    threshold: i64,
    id: Seq<char>,
) -> (place: int)
    requires
        shows_all(envelope, held, now, threshold),
        held.contains_key(id),
    ensures
        0 <= place < envelope.brokers@.len(),
        shows(envelope.brokers@[place], id, held[id], now, threshold),
        forall|i: int|
            0 <= i < envelope.brokers@.len() && i != place ==> (
            #[trigger] envelope.brokers@[i]).broker_id@ != id,
{
    let ids = response_ids(envelope.brokers@);
    assert(ids.to_set().contains(id));
    let place = ids.index_of(id);
    assert(ids[place] == id);
    assert forall|i: int| 0 <= i < envelope.brokers@.len() && i != place implies (
    #[trigger] envelope.brokers@[i]).broker_id@ != id by {
        assert(ids[i] != ids[place]);
    }
    place
}

/// The order is settled: two answers from the same figures at the same time list the
/// same brokers at the same places, with the same figures.
pub proof fn repeated_answers_agree(
    first: MetricsEnvelope,
    second: MetricsEnvelope,
    held: Map<Seq<char>, BrokerMetrics>,
    now: i64,
    threshold: i64,
)
    requires
        shows_all(first, held, now, threshold),
        shows_all(second, held, now, threshold),
    ensures
        first.count == second.count,
        response_ids(first.brokers@) == response_ids(second.brokers@),
        forall|i: int|
            0 <= i < first.brokers@.len() ==> shows(
                #[trigger] second.brokers@[i],
                first.brokers@[i].broker_id@,
                held[first.brokers@[i].broker_id@],
                now,
                threshold,
            ),
{
    let a = response_ids(first.brokers@);
    let b = response_ids(second.brokers@);
    sorted_listing_is_unique(a, b);
    assert(a.len() == first.brokers@.len());
    assert(b.len() == second.brokers@.len());
    assert forall|i: int| 0 <= i < first.brokers@.len() implies shows(
        #[trigger] second.brokers@[i],
        first.brokers@[i].broker_id@,
        held[first.brokers@[i].broker_id@],
        now,
        threshold,
    ) by {
        assert(a[i] == b[i]);
    }
}

/// A broker that was taken off is shown no more.
pub proof fn removed_broker_is_not_shown<H>(
    fleet: FleetView<H>,
    id: Seq<char>,
    envelope: MetricsEnvelope,
    now: i64,
    threshold: i64,
    place: int,
)
    requires
        fleet.handles.contains_key(id),
        shows_all(envelope, fleet.deleted(id).metrics, now, threshold),
        0 <= place < envelope.brokers@.len(),
    ensures
        envelope.brokers@[place].broker_id@ != id,
{
    let ids = response_ids(envelope.brokers@);
    assert(ids.to_set().contains(ids[place]));
}

/// Figures that are stale stay so until they are updated.
pub proof fn staleness_lasts(last_updated: Option<i64>, now: i64, later: i64, threshold: i64)
    requires
        now <= later,
        is_stale(last_updated, now, threshold),
    ensures
        is_stale(last_updated, later, threshold),
{
}

/// An update makes figures fresh for as long as the threshold says.
pub proof fn update_keeps_figures_fresh(updated: i64, now: i64, threshold: i64)
    requires
        now - updated <= threshold,
    ensures
        !is_stale(Some(updated), now, threshold),
{
}

} // verus!
