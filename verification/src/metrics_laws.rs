//! What holds of a broker's metrics: what messages and container statistics do to each
//! figure, and which figure a rule reads.

#[allow(unused_imports)]
use vstd::prelude::*;

#[allow(unused_imports)]
use crate::docker::{
    after_stats, figures_of, interfaces_of, rx_total, traffic_fits, tx_total, ContainerStats,
    InterfaceCounters, StatsEvent,
};
#[allow(unused_imports)]
use crate::metric::{
    condition_holds, metric_named, operator_named, reading_named, Comparison, Metric, Operator,
};
#[allow(unused_imports)]
use crate::mqtt::{
    action_after, after_message, after_mqtt, counter_of, lossy_text, MqttAction, MqttEvent,
    SysCounter,
};
#[allow(unused_imports)]
use crate::store::{lists_entries, metrics_or_unknown};
#[allow(unused_imports)]
use crate::text::{blank, decimal_text, parsed_u64, trimmed};
#[allow(unused_imports)]
use crate::text_laws::number_is_read_between_white_space;
#[allow(unused_imports)]
use crate::types::{BrokerMetrics, FloatBits, Reading};

verus! {

proof fn lemma_topics_differ()
    ensures
        "$SYS/broker/clients/connected"@ != "$SYS/broker/messages/sent"@,
        "$SYS/broker/clients/connected"@ != "$SYS/broker/messages/received"@,
        "$SYS/broker/clients/connected"@ != "$SYS/broker/bytes/sent"@,
        "$SYS/broker/clients/connected"@ != "$SYS/broker/bytes/received"@,
        "$SYS/broker/messages/sent"@ != "$SYS/broker/messages/received"@,
        "$SYS/broker/messages/sent"@ != "$SYS/broker/bytes/sent"@,
        "$SYS/broker/messages/sent"@ != "$SYS/broker/bytes/received"@,
        "$SYS/broker/messages/received"@ != "$SYS/broker/bytes/sent"@,
        "$SYS/broker/messages/received"@ != "$SYS/broker/bytes/received"@,
        "$SYS/broker/bytes/sent"@ != "$SYS/broker/bytes/received"@,
{
    reveal_strlit("$SYS/broker/clients/connected");
    reveal_strlit("$SYS/broker/messages/sent");
    reveal_strlit("$SYS/broker/messages/received");
    reveal_strlit("$SYS/broker/bytes/sent");
    reveal_strlit("$SYS/broker/bytes/received");
    assert("$SYS/broker/clients/connected"@.len() == 29);
    assert("$SYS/broker/messages/sent"@.len() == 25);
    assert("$SYS/broker/messages/received"@.len() == 29);
    assert("$SYS/broker/bytes/sent"@.len() == 22);
    assert("$SYS/broker/bytes/received"@.len() == 26);
    assert("$SYS/broker/clients/connected"@[12] != "$SYS/broker/messages/received"@[12]);
}

/// A message on a counter's topic sets that one field to the number in the message, or
/// to nothing where it holds none, whatever the field held before. The time of the last
/// update is set, and every other field stays.
pub proof fn message_sets_its_one_field(metrics: BrokerMetrics, payload: Seq<char>, now: i64)
    ensures
        after_message(metrics, "$SYS/broker/clients/connected"@, payload, now) == (BrokerMetrics {
            clients_connected: parsed_u64(trimmed(payload)),
            last_updated_secs: Some(now),
            ..metrics
        }),
        after_message(metrics, "$SYS/broker/messages/sent"@, payload, now) == (BrokerMetrics {
            messages_sent: parsed_u64(trimmed(payload)),
            last_updated_secs: Some(now),
            ..metrics
        }),
        after_message(metrics, "$SYS/broker/messages/received"@, payload, now) == (BrokerMetrics {
            messages_received: parsed_u64(trimmed(payload)),
            last_updated_secs: Some(now),
            ..metrics
        }),
        after_message(metrics, "$SYS/broker/bytes/sent"@, payload, now) == (BrokerMetrics {
            bytes_sent: parsed_u64(trimmed(payload)),
            last_updated_secs: Some(now),
            ..metrics
        }),
        after_message(metrics, "$SYS/broker/bytes/received"@, payload, now) == (BrokerMetrics {
            bytes_received: parsed_u64(trimmed(payload)),
            last_updated_secs: Some(now),
            ..metrics
        }),
{
    lemma_topics_differ();
}

/// A number that a broker publishes, with white space round it or not, is what the
/// topic's field then holds, whether or not anything was known of it before.
pub proof fn published_number_is_held(
    metrics: BrokerMetrics,
    before: Seq<char>,
    count: u64,
    behind: Seq<char>,
    now: i64,
)
    requires
        blank(before),
        blank(behind),
    ensures
        ({
            let text = before + decimal_text(count as nat) + behind;
            &&& after_message(metrics, "$SYS/broker/clients/connected"@, text, now)
                == (BrokerMetrics {
                clients_connected: Some(count),
                last_updated_secs: Some(now),
                ..metrics
            })
            &&& after_message(metrics, "$SYS/broker/messages/sent"@, text, now) == (BrokerMetrics {
                messages_sent: Some(count),
                last_updated_secs: Some(now),
                ..metrics
            })
            &&& after_message(metrics, "$SYS/broker/messages/received"@, text, now)
                == (BrokerMetrics {
                messages_received: Some(count),
                last_updated_secs: Some(now),
                ..metrics
            })
            &&& after_message(metrics, "$SYS/broker/bytes/sent"@, text, now) == (BrokerMetrics {
                bytes_sent: Some(count),
                last_updated_secs: Some(now),
                ..metrics
            })
            &&& after_message(metrics, "$SYS/broker/bytes/received"@, text, now) == (BrokerMetrics {
                bytes_received: Some(count),
                last_updated_secs: Some(now),
                ..metrics
            })
        }),
{
    number_is_read_between_white_space(before, count, behind);
    message_sets_its_one_field(metrics, before + decimal_text(count as nat) + behind, now);
}

/// A message on any topic but the five of the counters sets the time of the last update
/// and nothing else.
pub proof fn message_on_another_topic_sets_the_time(
    metrics: BrokerMetrics,
    topic: Seq<char>,
    payload: Seq<char>,
    now: i64,
)
    requires
        topic != "$SYS/broker/clients/connected"@,
        topic != "$SYS/broker/messages/sent"@,
        topic != "$SYS/broker/messages/received"@,
        topic != "$SYS/broker/bytes/sent"@,
        topic != "$SYS/broker/bytes/received"@,
    ensures
        after_message(metrics, topic, payload, now) == (BrokerMetrics {
            last_updated_secs: Some(now),
            ..metrics
        }),
{
}

/// Of a broker that has an entry the entry is taken, of another nothing is known: every
/// figure is absent and neither task is online.
pub proof fn nothing_is_known_without_an_entry(
    held: Map<Seq<char>, BrokerMetrics>,
    id: Seq<char>,
)
    ensures
        held.contains_key(id) ==> metrics_or_unknown(held, id) == held[id],
        !held.contains_key(id) ==> metrics_or_unknown(held, id) == (BrokerMetrics {
            clients_connected: None,
            messages_sent: None,
            messages_received: None,
            bytes_sent: None,
            bytes_received: None,
            cpu_percent: None,
            mem_usage_mb: None,
            net_rx_bytes: None,
            net_tx_bytes: None,
            last_updated_secs: None,
            mqtt_online: false,
            docker_online: false,
        }),
{
}

/// An event on a broker's connection: a taken subscription sets the online mark, a
/// refused one or a lost connection clears it, a message is applied, and anything else
/// changes nothing. The broker has an entry afterwards, but for an event of the last
/// sort, and the entries of all others stay.
pub proof fn event_changes_its_broker_alone(
    held: Map<Seq<char>, BrokerMetrics>,
    id: Seq<char>,
    event: MqttEvent,
    now: i64,
)
    ensures
        ({
            let before = metrics_or_unknown(held, id);
            let after = after_mqtt(held, id, event, now);
            match event {
                MqttEvent::Subscribed => after == held.insert(
                    id,
                    BrokerMetrics { mqtt_online: true, ..before },
                ),
                MqttEvent::SubscribeFailed => after == held.insert(
                    id,
                    BrokerMetrics { mqtt_online: false, ..before },
                ),
                MqttEvent::ConnectionLost => after == held.insert(
                    id,
                    BrokerMetrics { mqtt_online: false, ..before },
                ),
                MqttEvent::Publish { topic, payload } => after == held.insert(
                    id,
                    after_message(before, topic@, lossy_text(payload@), now),
                ),
                MqttEvent::Other => after == held,
            }
        }),
{
}

/// The connection is made anew exactly when the subscription was turned down or the
/// connection broke.
pub proof fn connection_is_made_anew_when_it_failed(event: MqttEvent)
    ensures
        event is SubscribeFailed ==> action_after(event) == MqttAction::Reconnect,
        event is ConnectionLost ==> action_after(event) == MqttAction::Reconnect,
        event is Subscribed ==> action_after(event) == MqttAction::Poll,
        event is Publish ==> action_after(event) == MqttAction::Poll,
        event is Other ==> action_after(event) == MqttAction::Poll,
{
}

/// A sample sets the four container figures, the time and the online mark, and leaves
/// the rest; its absence clears the online mark and leaves the rest.
pub proof fn sample_sets_the_container_figures(
    metrics: BrokerMetrics,
    cpu: FloatBits,
    mem: FloatBits,
    rx: u64,
    tx: u64,
    now: i64,
)
    ensures
        after_stats(
            metrics,
            StatsEvent::Sample { cpu_percent: cpu, mem_usage_mb: mem, rx_bytes: rx, tx_bytes: tx },
            now,
        ) == (BrokerMetrics {
            clients_connected: metrics.clients_connected,
            messages_sent: metrics.messages_sent,
            messages_received: metrics.messages_received,
            bytes_sent: metrics.bytes_sent,
            bytes_received: metrics.bytes_received,
            cpu_percent: Some(cpu),
            mem_usage_mb: Some(mem),
            net_rx_bytes: Some(rx),
            net_tx_bytes: Some(tx),
            last_updated_secs: Some(now),
            mqtt_online: metrics.mqtt_online,
            docker_online: true,
        }),
        after_stats(metrics, StatsEvent::Failed, now) == (BrokerMetrics {
            docker_online: false,
            ..metrics
        }),
        after_stats(metrics, StatsEvent::Ended, now) == (BrokerMetrics {
            docker_online: false,
            ..metrics
        }),
{
}

/// The traffic of two groups of interfaces adds up, and that of one interface is its
/// own.
pub proof fn traffic_adds_up(a: Seq<InterfaceCounters>, b: Seq<InterfaceCounters>)
    ensures
        rx_total(a + b) == rx_total(a) + rx_total(b),
        tx_total(a + b) == tx_total(a) + tx_total(b),
        a.len() == 0 ==> rx_total(a) == 0 && tx_total(a) == 0,
        a.len() == 1 ==> rx_total(a) == a[0].rx_bytes && tx_total(a) == a[0].tx_bytes,
    decreases b.len(),
{
    if a.len() == 1 {
        assert(a.drop_last().len() == 0);
        assert(rx_total(a.drop_last()) == 0 && tx_total(a.drop_last()) == 0);
    }
    if b.len() == 0 {
        assert(a + b =~= a);
    } else {
        traffic_adds_up(a, b.drop_last());
        assert((a + b).drop_last() =~= a + b.drop_last());
        assert((a + b).last() == b.last());
    }
}

/// The figures of a sample are those that it tells. One that it does not tell counts as
/// zero, the number of CPUs as one. The traffic is that of all interfaces.
pub proof fn missing_figures_count_as_zero(stats: ContainerStats)
    requires
        rx_total(interfaces_of(stats)) <= u64::MAX,
        tx_total(interfaces_of(stats)) <= u64::MAX,
    ensures
        traffic_fits(interfaces_of(stats)),
        stats.networks is None ==> interfaces_of(stats).len() == 0,
        stats.networks is Some ==> interfaces_of(stats) == stats.networks->0@,
        ({
            let figures = figures_of(stats);
            &&& figures.cpu_total == stats.cpu_total
            &&& figures.precpu_total == stats.precpu_total
            &&& stats.system_cpu is Some ==> figures.system_cpu == stats.system_cpu->0
            &&& stats.system_cpu is None ==> figures.system_cpu == 0
            &&& stats.presystem_cpu is Some ==> figures.presystem_cpu == stats.presystem_cpu->0
            &&& stats.presystem_cpu is None ==> figures.presystem_cpu == 0
            &&& stats.online_cpus is Some ==> figures.cpus == stats.online_cpus->0
            &&& stats.online_cpus is None ==> figures.cpus == 1
            &&& stats.memory_usage is Some ==> figures.memory_usage == stats.memory_usage->0
            &&& stats.memory_usage is None ==> figures.memory_usage == 0
            &&& figures.rx_bytes == rx_total(interfaces_of(stats))
            &&& figures.tx_bytes == tx_total(interfaces_of(stats))
        }),
{
}

/// Traffic beyond 64 bits does not fit.
pub proof fn traffic_beyond_64_bits_does_not_fit(networks: Seq<InterfaceCounters>)
    requires
        rx_total(networks) > u64::MAX || tx_total(networks) > u64::MAX,
    ensures
        !traffic_fits(networks),
{
}

proof fn lemma_metric_names_differ()
    ensures
        "clients_connected"@ != "messages_sent"@,
        "clients_connected"@ != "messages_received"@,
        "clients_connected"@ != "bytes_sent"@,
        "clients_connected"@ != "bytes_received"@,
        "clients_connected"@ != "cpu_percent"@,
        "clients_connected"@ != "mem_usage_mb"@,
        "clients_connected"@ != "net_rx_bytes"@,
        "clients_connected"@ != "net_tx_bytes"@,
        "messages_sent"@ != "messages_received"@,
        "messages_sent"@ != "bytes_sent"@,
        "messages_sent"@ != "bytes_received"@,
        "messages_sent"@ != "cpu_percent"@,
        "messages_sent"@ != "mem_usage_mb"@,
        "messages_sent"@ != "net_rx_bytes"@,
        "messages_sent"@ != "net_tx_bytes"@,
        "messages_received"@ != "bytes_sent"@,
        "messages_received"@ != "bytes_received"@,
        "messages_received"@ != "cpu_percent"@,
        "messages_received"@ != "mem_usage_mb"@,
        "messages_received"@ != "net_rx_bytes"@,
        "messages_received"@ != "net_tx_bytes"@,
        "bytes_sent"@ != "bytes_received"@,
        "bytes_sent"@ != "cpu_percent"@,
        "bytes_sent"@ != "mem_usage_mb"@,
        "bytes_sent"@ != "net_rx_bytes"@,
        "bytes_sent"@ != "net_tx_bytes"@,
        "bytes_received"@ != "cpu_percent"@,
        "bytes_received"@ != "mem_usage_mb"@,
        "bytes_received"@ != "net_rx_bytes"@,
        "bytes_received"@ != "net_tx_bytes"@,
        "cpu_percent"@ != "mem_usage_mb"@,
        "cpu_percent"@ != "net_rx_bytes"@,
        "cpu_percent"@ != "net_tx_bytes"@,
        "mem_usage_mb"@ != "net_rx_bytes"@,
        "mem_usage_mb"@ != "net_tx_bytes"@,
        "net_rx_bytes"@ != "net_tx_bytes"@,
{
    reveal_strlit("clients_connected");
    reveal_strlit("messages_sent");
    reveal_strlit("messages_received");
    reveal_strlit("bytes_sent");
    reveal_strlit("bytes_received");
    reveal_strlit("cpu_percent");
    reveal_strlit("mem_usage_mb");
    reveal_strlit("net_rx_bytes");
    reveal_strlit("net_tx_bytes");
    assert("clients_connected"@.len() == 17 && "messages_received"@.len() == 17);
    assert("messages_sent"@.len() == 13 && "bytes_sent"@.len() == 10);
    assert("bytes_received"@.len() == 14 && "cpu_percent"@.len() == 11);
    assert("mem_usage_mb"@.len() == 12 && "net_rx_bytes"@.len() == 12 && "net_tx_bytes"@.len()
        == 12);
    assert("clients_connected"@[0] != "messages_received"@[0]);
    assert("mem_usage_mb"@[0] != "net_rx_bytes"@[0]);
    assert("mem_usage_mb"@[0] != "net_tx_bytes"@[0]);
    assert("net_rx_bytes"@[4] != "net_tx_bytes"@[4]);
}

/// A rule reads the field that its metric names: where the field is known, its value is
/// the reading, and where it is not, there is none.
pub proof fn rule_reads_the_field_it_names(metrics: BrokerMetrics)
    ensures
        metrics.clients_connected matches Some(n) ==> reading_named(metrics, "clients_connected"@)
            == Some(Reading::Count(n)),
        metrics.clients_connected is None ==> reading_named(metrics, "clients_connected"@) is None,
        metrics.messages_sent matches Some(n) ==> reading_named(metrics, "messages_sent"@) == Some(
            Reading::Count(n),
        ),
        metrics.messages_sent is None ==> reading_named(metrics, "messages_sent"@) is None,
        metrics.messages_received matches Some(n) ==> reading_named(metrics, "messages_received"@)
            == Some(Reading::Count(n)),
        metrics.messages_received is None ==> reading_named(metrics, "messages_received"@) is None,
        metrics.bytes_sent matches Some(n) ==> reading_named(metrics, "bytes_sent"@) == Some(
            Reading::Count(n),
        ),
        metrics.bytes_sent is None ==> reading_named(metrics, "bytes_sent"@) is None,
        metrics.bytes_received matches Some(n) ==> reading_named(metrics, "bytes_received"@)
            == Some(Reading::Count(n)),
        metrics.bytes_received is None ==> reading_named(metrics, "bytes_received"@) is None,
        metrics.cpu_percent matches Some(f) ==> reading_named(metrics, "cpu_percent"@) == Some(
            Reading::Float(f),
        ),
        metrics.cpu_percent is None ==> reading_named(metrics, "cpu_percent"@) is None,
        metrics.mem_usage_mb matches Some(f) ==> reading_named(metrics, "mem_usage_mb"@) == Some(
            Reading::Float(f),
        ),
        metrics.mem_usage_mb is None ==> reading_named(metrics, "mem_usage_mb"@) is None,
        metrics.net_rx_bytes matches Some(n) ==> reading_named(metrics, "net_rx_bytes"@) == Some(
            Reading::Count(n),
        ),
        metrics.net_rx_bytes is None ==> reading_named(metrics, "net_rx_bytes"@) is None,
        metrics.net_tx_bytes matches Some(n) ==> reading_named(metrics, "net_tx_bytes"@) == Some(
            Reading::Count(n),
        ),
        metrics.net_tx_bytes is None ==> reading_named(metrics, "net_tx_bytes"@) is None,
{
    lemma_metric_names_differ();
}

/// Every metric and every operator goes by its own name.
pub proof fn metrics_and_operators_go_by_their_names()
    ensures
        metric_named("clients_connected"@) == Some(Metric::ClientsConnected),
        metric_named("messages_sent"@) == Some(Metric::MessagesSent),
        metric_named("messages_received"@) == Some(Metric::MessagesReceived),
        metric_named("bytes_sent"@) == Some(Metric::BytesSent),
        metric_named("bytes_received"@) == Some(Metric::BytesReceived),
        metric_named("cpu_percent"@) == Some(Metric::CpuPercent),
        metric_named("mem_usage_mb"@) == Some(Metric::MemUsageMb),
        metric_named("net_rx_bytes"@) == Some(Metric::NetRxBytes),
        metric_named("net_tx_bytes"@) == Some(Metric::NetTxBytes),
        operator_named(">"@) == Some(Operator::Greater),
        operator_named("<"@) == Some(Operator::Less),
        operator_named("=="@) == Some(Operator::Equal),
{
    lemma_metric_names_differ();
    reveal_strlit(">");
    reveal_strlit("<");
    reveal_strlit("==");
    assert(">"@.len() == 1 && "<"@.len() == 1 && "=="@.len() == 2);
    assert(">"@[0] != "<"@[0]);
}

/// Every counter is carried by its own topic.
pub proof fn counters_go_by_their_topics()
    ensures
        counter_of("$SYS/broker/clients/connected"@) == Some(SysCounter::ClientsConnected),
        counter_of("$SYS/broker/messages/sent"@) == Some(SysCounter::MessagesSent),
        counter_of("$SYS/broker/messages/received"@) == Some(SysCounter::MessagesReceived),
        counter_of("$SYS/broker/bytes/sent"@) == Some(SysCounter::BytesSent),
        counter_of("$SYS/broker/bytes/received"@) == Some(SysCounter::BytesReceived),
{
    lemma_topics_differ();
}

/// A name that is no metric's has no reading.
pub proof fn other_names_have_no_reading(metrics: BrokerMetrics, name: Seq<char>)
    requires
        name != "clients_connected"@,
        name != "messages_sent"@,
        name != "messages_received"@,
        name != "bytes_sent"@,
        name != "bytes_received"@,
        name != "cpu_percent"@,
        name != "mem_usage_mb"@,
        name != "net_rx_bytes"@,
        name != "net_tx_bytes"@,
    ensures
        reading_named(metrics, name) is None,
{
}

/// Conditions hold as their operators are written: `>` for a reading above the
/// threshold, `<` for one below it, `==` for one that is near it, and no other.
pub proof fn operators_mean_what_they_say(comparison: Comparison, name: Seq<char>)
    ensures
        condition_holds(">"@, comparison) == comparison.above,
        condition_holds("<"@, comparison) == comparison.below,
        condition_holds("=="@, comparison) == comparison.near,
        name != ">"@ && name != "<"@ && name != "=="@ ==> !condition_holds(name, comparison),
{
    reveal_strlit(">");
    reveal_strlit("<");
    reveal_strlit("==");
    assert(">"@.len() == 1 && "<"@.len() == 1 && "=="@.len() == 2);
    assert(">"@[0] != "<"@[0]);
}

/// A listing of the entries has each broker once, with its metrics, and no other.
pub proof fn listing_has_each_broker_once(
    entries: Seq<(String, BrokerMetrics)>,
    held: Map<Seq<char>, BrokerMetrics>,
    id: Seq<char>,
)
    requires
        lists_entries(entries, held),
    ensures
        held.contains_key(id) <==> exists|i: int|
            0 <= i < entries.len() && (#[trigger] entries[i]).0@ == id,
        forall|i: int|
            0 <= i < entries.len() && (#[trigger] entries[i]).0@ == id ==> entries[i].1 == held[id],
        forall|i: int, j: int|
            0 <= i < entries.len() && 0 <= j < entries.len() && (#[trigger] entries[i]).0@ == (
            #[trigger] entries[j]).0@ ==> i == j,
{
}

} // verus!
