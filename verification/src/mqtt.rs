//! The figures that a broker publishes about itself under `$SYS`: what each
//! message does to the broker's metrics, and when the connection is made anew.

use vstd::prelude::*;

use crate::clock::unix_secs;
#[allow(unused_imports)]
use crate::reading::clock_gave;
#[allow(unused_imports)]
use crate::store::metrics_or_unknown;
use crate::store::SharedState;
use crate::text::{parse_u64, same_text, trim};
#[allow(unused_imports)]
use crate::text::{decimal_text, number_survives_writing, parsed_u64, trimmed};
#[allow(unused_imports)]
use crate::text::written_number_is_trimmed;
use crate::types::BrokerMetrics;

verus! {

/// The topics that the agent subscribes to.
pub const SYS_TOPICS: &'static str = "$SYS/#";

/// What happens on a broker's connection.
#[derive(Debug, PartialEq, Eq)]
pub enum MqttEvent {
    /// The subscription was turned down.
    SubscribeFailed,
    /// The subscription was taken.
    Subscribed,
    /// A message came.
    Publish { topic: String, payload: Vec<u8> },
    /// Anything else came.
    Other,
    /// The connection broke.
    ConnectionLost,
}

/// What is to be done after an event.
#[derive(Clone, Copy, Debug, PartialEq, Eq, Structural)]
pub enum MqttAction {
    /// Wait for the next event on the connection.
    Poll,
    /// Wait one scrape interval, then make a new connection and subscribe again.
    Reconnect,
}

/// A counter that a broker publishes.
#[derive(Clone, Copy, Debug, PartialEq, Eq, Structural)]
pub enum SysCounter {
    ClientsConnected,
    MessagesSent,
    MessagesReceived,
    BytesSent,
    BytesReceived,
}

/// The text that `String::from_utf8_lossy` makes of some bytes.
pub uninterp spec fn lossy_text(bytes: Seq<u8>) -> Seq<char>;

/// `String::from_utf8_lossy`: bytes that are valid UTF-8 are decoded as they stand.
/// In other bytes each invalid stretch gives way to a replacement character; how
/// they are cut into stretches is not spelt out.
#[verifier::external_body]
fn decode_lossy(bytes: &Vec<u8>) -> (text: String)
    ensures
        text@ == lossy_text(bytes@),
        vstd::utf8::valid_utf8(bytes@) ==> text@ == vstd::utf8::decode_utf8(bytes@),
{
    String::from_utf8_lossy(bytes).into_owned()
}

/// The counter that a topic carries.
pub open spec fn counter_of(topic: Seq<char>) -> Option<SysCounter> {
    if topic == "$SYS/broker/clients/connected"@ {
        Some(SysCounter::ClientsConnected)
    } else if topic == "$SYS/broker/messages/sent"@ {
        Some(SysCounter::MessagesSent)
    } else if topic == "$SYS/broker/messages/received"@ {
        Some(SysCounter::MessagesReceived)
    } else if topic == "$SYS/broker/bytes/sent"@ {
        Some(SysCounter::BytesSent)
    } else if topic == "$SYS/broker/bytes/received"@ {
        Some(SysCounter::BytesReceived)
    } else {
        None
    }
}

/// The metrics with one counter set.
pub open spec fn with_counter(
    metrics: BrokerMetrics,
    counter: SysCounter,
    value: Option<u64>,
) -> BrokerMetrics {
    match counter {
        SysCounter::ClientsConnected => BrokerMetrics { clients_connected: value, ..metrics },
        SysCounter::MessagesSent => BrokerMetrics { messages_sent: value, ..metrics },
        SysCounter::MessagesReceived => BrokerMetrics { messages_received: value, ..metrics },
        SysCounter::BytesSent => BrokerMetrics { bytes_sent: value, ..metrics },
        SysCounter::BytesReceived => BrokerMetrics { bytes_received: value, ..metrics },
    }
}

/// The metrics after a message at the Unix time `now`: a counter's topic sets the
/// counter to the number in the message, or to nothing where there is none. Every
/// message counts as an update.
pub open spec fn after_message(
    metrics: BrokerMetrics,
    topic: Seq<char>,
    payload: Seq<char>,
    now: i64,
) -> BrokerMetrics {
    let counted = match counter_of(topic) {
        Some(counter) => with_counter(metrics, counter, parsed_u64(trimmed(payload))),
        None => metrics,
    };
    BrokerMetrics { last_updated_secs: Some(now), ..counted }
}

/// What the metrics of all brokers become after `event` on the connection of the
/// broker `id` at the Unix time `now`.
pub open spec fn after_mqtt(
    held: Map<Seq<char>, BrokerMetrics>,
    id: Seq<char>,
    event: MqttEvent,
    now: i64,
) -> Map<Seq<char>, BrokerMetrics> {
    let metrics = metrics_or_unknown(held, id);
    match event {
        MqttEvent::SubscribeFailed | MqttEvent::ConnectionLost => held.insert(
            id,
            BrokerMetrics { mqtt_online: false, ..metrics },
        ),
        MqttEvent::Subscribed => held.insert(id, BrokerMetrics { mqtt_online: true, ..metrics }),
        MqttEvent::Publish { topic, payload } => held.insert(
            id,
            after_message(metrics, topic@, lossy_text(payload@), now),
        ),
        MqttEvent::Other => held,
    }
}

/// What is to be done after `event`.
pub open spec fn action_after(event: MqttEvent) -> MqttAction {
    match event {
        MqttEvent::SubscribeFailed | MqttEvent::ConnectionLost => MqttAction::Reconnect,
        _ => MqttAction::Poll,
    }
}

/// The name under which the agent connects to the broker `broker_id`.
pub fn client_id(broker_id: &str) -> (r: String)
    ensures
        r@ == "cloud-monitoring-agent-"@ + broker_id@,
{
    let mut name = "cloud-monitoring-agent-".to_owned();
    name.append(broker_id);
    name
}

impl SysCounter {
    /// Finds the counter that a topic carries.
    pub fn of_topic(topic: &str) -> (r: Option<SysCounter>)
        ensures
            r == counter_of(topic@),
    {
        if same_text(topic, "$SYS/broker/clients/connected") {
            Some(SysCounter::ClientsConnected)
        } else if same_text(topic, "$SYS/broker/messages/sent") {
            Some(SysCounter::MessagesSent)
        } else if same_text(topic, "$SYS/broker/messages/received") {
            Some(SysCounter::MessagesReceived)
        } else if same_text(topic, "$SYS/broker/bytes/sent") {
            Some(SysCounter::BytesSent)
        } else if same_text(topic, "$SYS/broker/bytes/received") {
            Some(SysCounter::BytesReceived)
        } else {
            None
        }
    }
}

/// The metrics after a message with the text `payload` at the Unix time `now`.
pub fn apply_message(metrics: &BrokerMetrics, topic: &str, payload: &str, now: i64) -> (r:
    BrokerMetrics)
    ensures
        r == after_message(*metrics, topic@, payload@, now),
{
    let mut updated = *metrics;
    match SysCounter::of_topic(topic) {
        Some(counter) => {
            let value = parse_u64(trim(payload));
            match counter {
                SysCounter::ClientsConnected => {
                    updated.clients_connected = value;
                },
                SysCounter::MessagesSent => {
                    updated.messages_sent = value;
                },
                SysCounter::MessagesReceived => {
                    updated.messages_received = value;
                },
                SysCounter::BytesSent => {
                    updated.bytes_sent = value;
                },
                SysCounter::BytesReceived => {
                    updated.bytes_received = value;
                },
            }
        },
        None => {},
    }
    updated.last_updated_secs = Some(now);
    updated
}

/// Records `event` on the connection of the broker `broker_id` at the Unix time
/// `now`, and says what is to be done next. A payload is read as text, lossily
/// where it is not UTF-8.
pub fn handle_mqtt_at(state: &mut SharedState, broker_id: &str, event: &MqttEvent, now: i64) -> (r:
    MqttAction)
    ensures
        final(state)@ == after_mqtt(old(state)@, broker_id@, *event, now),
        r == action_after(*event),
        (*event matches MqttEvent::Publish { payload, .. } ==> (vstd::utf8::valid_utf8(payload@)
            ==> lossy_text(payload@) == vstd::utf8::decode_utf8(payload@))),
{
    match event {
        MqttEvent::SubscribeFailed | MqttEvent::ConnectionLost => {
            let mut metrics = state.get_or_default(broker_id);
            metrics.mqtt_online = false;
            state.insert(broker_id, metrics);
            MqttAction::Reconnect
        },
        MqttEvent::Subscribed => {
            let mut metrics = state.get_or_default(broker_id);
            metrics.mqtt_online = true;
            state.insert(broker_id, metrics);
            MqttAction::Poll
        },
        MqttEvent::Publish { topic, payload } => {
            let text = decode_lossy(payload);
            let metrics = state.get_or_default(broker_id);
            let updated = apply_message(&metrics, topic.as_str(), text.as_str(), now);
            state.insert(broker_id, updated);
            MqttAction::Poll
        },
        MqttEvent::Other => MqttAction::Poll,
    }
}

/// [`handle_mqtt_at`] at the present time.
pub fn handle_mqtt(state: &mut SharedState, broker_id: &str, event: &MqttEvent) -> (r: MqttAction)
    ensures
        exists|now: i64|
            clock_gave(now) && final(state)@ == #[trigger] after_mqtt(
                old(state)@,
                broker_id@,
                *event,
                now,
            ),
        r == action_after(*event),
        (*event matches MqttEvent::Publish { payload, .. } ==> (vstd::utf8::valid_utf8(payload@)
            ==> lossy_text(payload@) == vstd::utf8::decode_utf8(payload@))),
{
    let now: i64 = unix_secs();
    handle_mqtt_at(state, broker_id, event, now)
}

/// A broker counts as reachable after a subscription was taken, as unreachable
/// after one was turned down or the connection broke, and otherwise as before.
pub proof fn connection_events_set_the_online_mark(
    held: Map<Seq<char>, BrokerMetrics>,
    id: Seq<char>,
    event: MqttEvent,
    now: i64,
)
    ensures
        metrics_or_unknown(after_mqtt(held, id, event, now), id).mqtt_online == (match event {
            MqttEvent::Subscribed => true,
            MqttEvent::SubscribeFailed | MqttEvent::ConnectionLost => false,
            _ => metrics_or_unknown(held, id).mqtt_online,
        }),
{
}

/// Losing the connection keeps the figures and the time of the last update.
pub proof fn lost_connection_keeps_the_figures(
    held: Map<Seq<char>, BrokerMetrics>,
    id: Seq<char>,
    event: MqttEvent,
    now: i64,
)
    requires
        event is ConnectionLost || event is SubscribeFailed,
    ensures
        after_mqtt(held, id, event, now) == held.insert(
            id,
            BrokerMetrics { mqtt_online: false, ..metrics_or_unknown(held, id) },
        ),
        action_after(event) == MqttAction::Reconnect,
{
}

/// A message on a topic without a counter changes nothing but the time of the last
/// update.
pub proof fn other_topics_only_mark_the_time(
    metrics: BrokerMetrics,
    topic: Seq<char>,
    payload: Seq<char>,
    now: i64,
)
    requires
        counter_of(topic) is None,
    ensures
        after_message(metrics, topic, payload, now) == (BrokerMetrics {
            last_updated_secs: Some(now),
            ..metrics
        }),
{
}

/// A number that a broker publishes on a counter's topic is what the counter then
/// holds.
pub proof fn published_count_is_recorded(
    metrics: BrokerMetrics,
    topic: Seq<char>,
    count: u64,
    now: i64,
)
    requires
        counter_of(topic) is Some,
    ensures
        after_message(metrics, topic, decimal_text(count as nat), now) == (BrokerMetrics {
            last_updated_secs: Some(now),
            ..with_counter(metrics, counter_of(topic)->0, Some(count))
        }),
{
    written_number_is_trimmed(count as nat);
    number_survives_writing(count);
}

/// A counter whose message holds no number becomes unknown: no stale value stays.
pub proof fn unreadable_counter_becomes_unknown(
    metrics: BrokerMetrics,
    topic: Seq<char>,
    payload: Seq<char>,
    now: i64,
)
    requires
        counter_of(topic) is Some,
        parsed_u64(trimmed(payload)) is None,
    ensures
        after_message(metrics, topic, payload, now) == (BrokerMetrics {
            last_updated_secs: Some(now),
            ..with_counter(metrics, counter_of(topic)->0, None)
        }),
{
}

/// What happens on one broker's connection leaves the metrics of the others alone.
pub proof fn events_stay_with_their_broker(
    held: Map<Seq<char>, BrokerMetrics>,
    id: Seq<char>,
    event: MqttEvent,
    now: i64,
    other: Seq<char>,
)
    requires
        other != id,
    ensures
        after_mqtt(held, id, event, now).contains_key(other) == held.contains_key(other),
        held.contains_key(other) ==> after_mqtt(held, id, event, now)[other] == held[other],
{
}

/// Messages never touch what comes from the container.
pub proof fn messages_leave_container_figures_alone(
    metrics: BrokerMetrics,
    topic: Seq<char>,
    payload: Seq<char>,
    now: i64,
)
    ensures
        ({
            let after = after_message(metrics, topic, payload, now);
            &&& after.cpu_percent == metrics.cpu_percent
            &&& after.mem_usage_mb == metrics.mem_usage_mb
            &&& after.net_rx_bytes == metrics.net_rx_bytes
            &&& after.net_tx_bytes == metrics.net_tx_bytes
            &&& after.docker_online == metrics.docker_online
        }),
{
}

} // verus!
