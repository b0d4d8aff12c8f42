//! Container statistics: what is taken out of a sample, and what a sample or its
//! absence does to a broker's metrics.

use vstd::prelude::*;

use crate::clock::unix_secs;
#[allow(unused_imports)]
use crate::reading::clock_gave;
#[allow(unused_imports)]
use crate::store::metrics_or_unknown;
use crate::store::SharedState;
#[allow(unused_imports)]
use crate::types::known_or;
use crate::types::{BrokerMetrics, FloatBits};

verus! {

/// The traffic of one network interface, in bytes.
#[derive(Clone, Copy, Debug, PartialEq, Eq, Structural)]
pub struct InterfaceCounters {
    pub rx_bytes: u64,
    pub tx_bytes: u64,
}

/// The part of a container's statistics that the agent reads.
#[derive(Debug)]
pub struct ContainerStats {
    /// CPU time used by the container, now and at the sample before.
    pub cpu_total: u64,
    pub precpu_total: u64,
    /// CPU time used by the whole system, now and at the sample before.
    pub system_cpu: Option<u64>,
    pub presystem_cpu: Option<u64>,
    pub online_cpus: Option<u64>,
    /// Memory in use, in bytes.
    pub memory_usage: Option<u64>,
    /// The interfaces of the container, in any order.
    pub networks: Option<Vec<InterfaceCounters>>,
}

/// The figures of a sample, with the missing ones filled in.
#[derive(Clone, Copy, Debug, PartialEq, Eq, Structural)]
pub struct UsageFigures {
    pub cpu_total: u64,
    pub precpu_total: u64,
    pub system_cpu: u64,
    pub presystem_cpu: u64,
    pub cpus: u64,
    pub memory_usage: u64,
    pub rx_bytes: u64,
    pub tx_bytes: u64,
}

/// What became of a request for a container's statistics.
#[derive(Clone, Copy, Debug, PartialEq, Eq, Structural)]
pub enum StatsEvent {
    /// A sample came. The two quantities are computed from its [`UsageFigures`].
    Sample { cpu_percent: FloatBits, mem_usage_mb: FloatBits, rx_bytes: u64, tx_bytes: u64 },
    /// The request failed.
    Failed,
    /// The stream ended without a sample.
    Ended,
}

/// The bytes received over all interfaces.
pub open spec fn rx_total(networks: Seq<InterfaceCounters>) -> nat
    decreases networks.len(),
{
    if networks.len() == 0 {
        0
    } else {
        rx_total(networks.drop_last()) + networks.last().rx_bytes as nat
    }
}

/// The bytes sent over all interfaces.
pub open spec fn tx_total(networks: Seq<InterfaceCounters>) -> nat
    decreases networks.len(),
{
    if networks.len() == 0 {
        0
    } else {
        tx_total(networks.drop_last()) + networks.last().tx_bytes as nat
    }
}

/// The interfaces of a sample: none where it tells of no network.
pub open spec fn interfaces_of(stats: ContainerStats) -> Seq<InterfaceCounters> {
    match stats.networks {
        Some(networks) => networks@,
        None => Seq::empty(),
    }
}

/// The figures of a sample: a missing one counts as zero, a missing number of
/// CPUs as one.
pub open spec fn figures_of(stats: ContainerStats) -> UsageFigures {
    UsageFigures {
        cpu_total: stats.cpu_total,
        precpu_total: stats.precpu_total,
        system_cpu: known_or(stats.system_cpu, 0),
        presystem_cpu: known_or(stats.presystem_cpu, 0),
        cpus: known_or(stats.online_cpus, 1),
        memory_usage: known_or(stats.memory_usage, 0),
        rx_bytes: rx_total(interfaces_of(stats)) as u64,
        tx_bytes: tx_total(interfaces_of(stats)) as u64,
    }
}

/// The traffic of a sample can be added up in 64 bits.
pub open spec fn traffic_fits(networks: Seq<InterfaceCounters>) -> bool {
    rx_total(networks) <= u64::MAX && tx_total(networks) <= u64::MAX
}

/// The metrics of a broker after `event` at the Unix time `now`.
pub open spec fn after_stats(metrics: BrokerMetrics, event: StatsEvent, now: i64) -> BrokerMetrics {
    match event {
        StatsEvent::Sample { cpu_percent, mem_usage_mb, rx_bytes, tx_bytes } => BrokerMetrics {
            cpu_percent: Some(cpu_percent),
            mem_usage_mb: Some(mem_usage_mb),
            net_rx_bytes: Some(rx_bytes),
            net_tx_bytes: Some(tx_bytes),
            last_updated_secs: Some(now),
            docker_online: true,
            ..metrics
        },
        StatsEvent::Failed | StatsEvent::Ended => BrokerMetrics { docker_online: false, ..metrics },
    }
}

proof fn lemma_totals_grow(networks: Seq<InterfaceCounters>, k: int)
    requires
        0 <= k <= networks.len(),
    ensures
        rx_total(networks.take(k)) <= rx_total(networks),
        tx_total(networks.take(k)) <= tx_total(networks),
    decreases networks.len() - k,
{
    if k == networks.len() {
        assert(networks.take(k) =~= networks);
    } else {
        lemma_totals_grow(networks.drop_last(), k);
        assert(networks.drop_last().take(k) =~= networks.take(k));
    }
}

/// Adds up the traffic of all interfaces, received and sent, unless 64 bits cannot
/// hold it.
pub fn total_traffic(networks: &Vec<InterfaceCounters>) -> (r: Option<(u64, u64)>)
    ensures
        r == (if traffic_fits(networks@) {
            Some((rx_total(networks@) as u64, tx_total(networks@) as u64))
        } else {
            None
        }),
{
    let mut rx: u64 = 0;
    let mut tx: u64 = 0;
    let n: usize = networks.len();
    let mut i: usize = 0;
    assert(networks@.take(0).len() == 0);
    while i < n
        invariant
            n == networks@.len(),
            i <= n,
            rx == rx_total(networks@.take(i as int)),
            tx == tx_total(networks@.take(i as int)),
        decreases n - i,
    {
        proof {
            let next = networks@.take(i as int + 1);
            assert(next.drop_last() =~= networks@.take(i as int));
            assert(next.last() == networks@[i as int]);
            lemma_totals_grow(networks@, i as int + 1);
        }
        match rx.checked_add(networks[i].rx_bytes) {
            Some(sum) => {
                rx = sum;
            },
            None => {
                return None;
            },
        }
        match tx.checked_add(networks[i].tx_bytes) {
            Some(sum) => {
                tx = sum;
            },
            None => {
                return None;
            },
        }
        i += 1;
    }
    assert(networks@.take(n as int) =~= networks@);
    Some((rx, tx))
}

/// The figures of a sample with the missing ones filled in, unless its traffic
/// cannot be added up in 64 bits.
pub fn usage_figures(stats: &ContainerStats) -> (r: Option<UsageFigures>)
    ensures
        r == (if traffic_fits(interfaces_of(*stats)) {
            Some(figures_of(*stats))
        } else {
            None
        }),
{
    let traffic = match &stats.networks {
        Some(networks) => total_traffic(networks),
        None => Some((0u64, 0u64)),
    };
    match traffic {
        Some((rx_bytes, tx_bytes)) => Some(
            UsageFigures {
                cpu_total: stats.cpu_total,
                precpu_total: stats.precpu_total,
                system_cpu: stats.system_cpu.unwrap_or(0),
                presystem_cpu: stats.presystem_cpu.unwrap_or(0),
                cpus: stats.online_cpus.unwrap_or(1),
                memory_usage: stats.memory_usage.unwrap_or(0),
                rx_bytes,
                tx_bytes,
            },
        ),
        None => None,
    }
}

/// Records what became of a request for the statistics of the broker `broker_id`,
/// at the Unix time `now`. A broker of which nothing was known gets an entry.
pub fn record_stats_at(state: &mut SharedState, broker_id: &str, event: &StatsEvent, now: i64)
    ensures
        final(state)@ == old(state)@.insert(
            broker_id@,
            after_stats(metrics_or_unknown(old(state)@, broker_id@), *event, now),
        ),
{
    let mut metrics = state.get_or_default(broker_id);
    match *event {
        StatsEvent::Sample { cpu_percent, mem_usage_mb, rx_bytes, tx_bytes } => {
            metrics.cpu_percent = Some(cpu_percent);
            metrics.mem_usage_mb = Some(mem_usage_mb);
            metrics.net_rx_bytes = Some(rx_bytes);
            metrics.net_tx_bytes = Some(tx_bytes);
            metrics.last_updated_secs = Some(now);
            metrics.docker_online = true;
        },
        StatsEvent::Failed | StatsEvent::Ended => {
            metrics.docker_online = false;
        },
    }
    state.insert(broker_id, metrics);
}

/// [`record_stats_at`] at the present time.
pub fn record_stats(state: &mut SharedState, broker_id: &str, event: &StatsEvent)
    ensures
        exists|now: i64|
            clock_gave(now) && final(state)@ == old(state)@.insert(
                broker_id@,
                #[trigger] after_stats(metrics_or_unknown(old(state)@, broker_id@), *event, now),
            ),
{
    let now: i64 = unix_secs();
    record_stats_at(state, broker_id, event, now);
}

/// The order in which the interfaces come does not matter.
pub proof fn traffic_ignores_order(a: Seq<InterfaceCounters>, b: Seq<InterfaceCounters>)
    requires
        a.to_multiset() == b.to_multiset(),
    ensures
        rx_total(a) == rx_total(b),
        tx_total(a) == tx_total(b),
    decreases a.len(),
{
    broadcast use vstd::seq_lib::group_to_multiset_ensures;

    assert(a.len() == a.to_multiset().len());
    assert(b.len() == b.to_multiset().len());
    if a.len() > 0 {
        let last = a.last();
        assert(a.to_multiset().count(last) > 0) by {
            assert(a.contains(last));
        }
        assert(b.contains(last));
        let i = b.index_of(last);
        lemma_total_without(b, i);
        assert(a.remove(a.len() - 1) =~= a.drop_last());
        traffic_ignores_order(a.drop_last(), b.remove(i));
    }
}

proof fn lemma_total_without(networks: Seq<InterfaceCounters>, i: int)
    requires
        0 <= i < networks.len(),
    ensures
        rx_total(networks) == rx_total(networks.remove(i)) + networks[i].rx_bytes,
        tx_total(networks) == tx_total(networks.remove(i)) + networks[i].tx_bytes,
    decreases networks.len(),
{
    if i == networks.len() - 1 {
        assert(networks.remove(i) =~= networks.drop_last());
    } else {
        lemma_total_without(networks.drop_last(), i);
        assert(networks.remove(i).drop_last() =~= networks.drop_last().remove(i));
        assert(networks.remove(i).last() == networks.last());
    }
}

/// A failed request marks the container offline and leaves every figure, and the
/// time of the last update, as they were.
pub proof fn failed_stats_keep_the_figures(metrics: BrokerMetrics, event: StatsEvent, now: i64)
    requires
        event is Failed || event is Ended,
    ensures
        after_stats(metrics, event, now) == (BrokerMetrics { docker_online: false, ..metrics }),
{
}

/// Container statistics never touch what comes over MQTT.
pub proof fn stats_leave_mqtt_alone(metrics: BrokerMetrics, event: StatsEvent, now: i64)
    ensures
        ({
            let after = after_stats(metrics, event, now);
            &&& after.mqtt_online == metrics.mqtt_online
            &&& after.clients_connected == metrics.clients_connected
            &&& after.messages_sent == metrics.messages_sent
            &&& after.messages_received == metrics.messages_received
            &&& after.bytes_sent == metrics.bytes_sent
            &&& after.bytes_received == metrics.bytes_received
        }),
{
}

/// A sample marks the container online again, whatever came before it.
pub proof fn sample_brings_the_container_back(
    metrics: BrokerMetrics,
    failure: StatsEvent,
    then: i64,
    sample: StatsEvent,
    now: i64,
)
    requires
        failure is Failed || failure is Ended,
        sample is Sample,
    ensures
        after_stats(after_stats(metrics, failure, then), sample, now).docker_online,
        after_stats(after_stats(metrics, failure, then), sample, now) == after_stats(
            metrics,
            sample,
            now,
        ),
{
}

} // verus!
