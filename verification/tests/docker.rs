use progressbox_agent::docker::{
    record_stats, record_stats_at, total_traffic, usage_figures, ContainerStats, InterfaceCounters,
    StatsEvent, UsageFigures,
};
use progressbox_agent::store::SharedState;
use progressbox_agent::types::{BrokerMetrics, FloatBits};

fn interface(rx_bytes: u64, tx_bytes: u64) -> InterfaceCounters {
    InterfaceCounters { rx_bytes, tx_bytes }
}

fn sample() -> StatsEvent {
    StatsEvent::Sample {
        cpu_percent: FloatBits { bits: 12.5f64.to_bits() },
        mem_usage_mb: FloatBits { bits: 256.0f64.to_bits() },
        rx_bytes: 10,
        tx_bytes: 20,
    }
}

#[test]
fn traffic_is_added_up_in_any_order() {
    assert_eq!(total_traffic(&vec![]), Some((0, 0)));
    assert_eq!(total_traffic(&vec![interface(1, 10), interface(2, 20), interface(3, 30)]), Some((6, 60)));
    assert_eq!(total_traffic(&vec![interface(3, 30), interface(1, 10), interface(2, 20)]), Some((6, 60)));
    assert_eq!(total_traffic(&vec![interface(u64::MAX, 0), interface(0, 5)]), Some((u64::MAX, 5)));
    assert_eq!(total_traffic(&vec![interface(u64::MAX, 0), interface(1, 0)]), None);
    assert_eq!(total_traffic(&vec![interface(0, u64::MAX), interface(0, 1)]), None);
}

#[test]
fn missing_figures_are_filled_in() {
    let bare = ContainerStats {
        cpu_total: 7,
        precpu_total: 3,
        system_cpu: None,
        presystem_cpu: None,
        online_cpus: None,
        memory_usage: None,
        networks: None,
    };
    assert_eq!(
        usage_figures(&bare),
        Some(UsageFigures {
            cpu_total: 7,
            precpu_total: 3,
            system_cpu: 0,
            presystem_cpu: 0,
            cpus: 1,
            memory_usage: 0,
            rx_bytes: 0,
            tx_bytes: 0,
        })
    );
    let full = ContainerStats {
        cpu_total: 7,
        precpu_total: 3,
        system_cpu: Some(100),
        presystem_cpu: Some(60),
        online_cpus: Some(4),
        memory_usage: Some(1048576),
        networks: Some(vec![interface(1, 2), interface(3, 4)]),
    };
    assert_eq!(
        usage_figures(&full),
        Some(UsageFigures {
            cpu_total: 7,
            precpu_total: 3,
            system_cpu: 100,
            presystem_cpu: 60,
            cpus: 4,
            memory_usage: 1048576,
            rx_bytes: 4,
            tx_bytes: 6,
        })
    );
    let huge = ContainerStats { networks: Some(vec![interface(u64::MAX, 0), interface(1, 0)]), ..full };
    assert_eq!(usage_figures(&huge), None);
}

#[test]
fn sample_is_recorded() {
    let mut state = SharedState::new();
    record_stats_at(&mut state, "b1", &sample(), 99);
    assert_eq!(
        state.get("b1"),
        Some(BrokerMetrics {
            cpu_percent: Some(FloatBits { bits: 12.5f64.to_bits() }),
            mem_usage_mb: Some(FloatBits { bits: 256.0f64.to_bits() }),
            net_rx_bytes: Some(10),
            net_tx_bytes: Some(20),
            last_updated_secs: Some(99),
            docker_online: true,
            ..BrokerMetrics::default()
        })
    );
}

#[test]
fn failures_keep_the_figures() {
    for failure in [StatsEvent::Failed, StatsEvent::Ended] {
        let mut state = SharedState::new();
        state.insert(
            "b1",
            BrokerMetrics { messages_sent: Some(5), mqtt_online: true, ..BrokerMetrics::default() },
        );
        record_stats_at(&mut state, "b1", &sample(), 99);
        let before = state.get("b1").unwrap();
        record_stats_at(&mut state, "b1", &failure, 100);
        assert_eq!(state.get("b1"), Some(BrokerMetrics { docker_online: false, ..before }));
        assert_eq!(before.messages_sent, Some(5));
        assert!(before.mqtt_online);
        record_stats_at(&mut state, "b1", &sample(), 101);
        assert!(state.get("b1").unwrap().docker_online);
        record_stats_at(&mut state, "new", &failure, 102);
        assert_eq!(state.get("new"), Some(BrokerMetrics::default()));
    }
}

#[test]
fn samples_are_stamped_with_the_present_time() {
    let mut state = SharedState::new();
    record_stats(&mut state, "b1", &sample());
    let time = state.get("b1").unwrap().last_updated_secs.unwrap();
    assert!(time > 1_577_836_800 && time < 100_000_000_000);
}
