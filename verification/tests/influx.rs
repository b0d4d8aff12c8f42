use progressbox_agent::influx::{agent_host, influx_points, metrics_point, resolve_host, UNKNOWN_HOST};
use progressbox_agent::store::SharedState;
use progressbox_agent::types::{BrokerMetrics, BrokerMetricsPoint, FloatBits};

fn some(text: &str) -> Option<String> {
    Some(text.to_string())
}

#[test]
fn host_is_resolved_in_order() {
    assert_eq!(resolve_host(some("edge-1"), some("machine")), "edge-1");
    assert_eq!(resolve_host(some(" edge-1 "), some("machine")), " edge-1 ");
    assert_eq!(resolve_host(some(" \t"), some("machine")), "machine");
    assert_eq!(resolve_host(some(""), some("machine")), "machine");
    assert_eq!(resolve_host(None, some("machine")), "machine");
    assert_eq!(resolve_host(some(""), None), "unknown");
    assert_eq!(resolve_host(None, None), "unknown");
    assert_eq!(UNKNOWN_HOST, "unknown");
}

#[test]
fn agent_asks_the_machine_for_its_name() {
    assert_eq!(agent_host(some("edge-1")), "edge-1");
    let machine = hostname::get().ok().and_then(|name| name.into_string().ok());
    assert_eq!(agent_host(None), resolve_host(None, machine));
    assert_eq!(agent_host(some("  ")), agent_host(None));
}

#[test]
fn point_holds_the_figures() {
    let metrics = BrokerMetrics {
        clients_connected: Some(1),
        messages_sent: Some(2),
        messages_received: Some(3),
        bytes_sent: Some(9223372036854775808),
        bytes_received: Some(u64::MAX),
        cpu_percent: Some(FloatBits { bits: 6.5f64.to_bits() }),
        mem_usage_mb: Some(FloatBits { bits: 7.5f64.to_bits() }),
        ..BrokerMetrics::default()
    };
    assert_eq!(
        metrics_point("edge-1", "b1", &metrics, Some(1234)),
        BrokerMetricsPoint {
            broker_id: "b1".to_string(),
            host: "edge-1".to_string(),
            clients_connected: 1,
            messages_sent: 2,
            messages_received: 3,
            bytes_sent: i64::MIN,
            bytes_received: -1,
            cpu_percent: FloatBits { bits: 6.5f64.to_bits() },
            mem_usage_mb: FloatBits { bits: 7.5f64.to_bits() },
            time: 1234,
        }
    );
}

#[test]
fn missing_figures_are_zero() {
    let point = metrics_point("h", "b", &BrokerMetrics::default(), None);
    assert_eq!(
        point,
        BrokerMetricsPoint {
            broker_id: "b".to_string(),
            host: "h".to_string(),
            clients_connected: 0,
            messages_sent: 0,
            messages_received: 0,
            bytes_sent: 0,
            bytes_received: 0,
            cpu_percent: FloatBits { bits: 0 },
            mem_usage_mb: FloatBits { bits: 0 },
            time: 0,
        }
    );
    assert_eq!(f64::from_bits(point.cpu_percent.bits), 0.0);
}

#[test]
fn every_broker_gets_a_point() {
    let mut state = SharedState::new();
    assert!(influx_points(&state, "h").is_empty());
    for n in 0..20u64 {
        let metrics = BrokerMetrics { messages_sent: Some(n), ..BrokerMetrics::default() };
        state.insert(&format!("b{:02}", n), metrics);
    }
    let mut points = influx_points(&state, "h");
    points.sort_by(|a, b| a.broker_id.cmp(&b.broker_id));
    assert_eq!(points.len(), 20);
    for (n, point) in points.iter().enumerate() {
        assert_eq!(point.broker_id, format!("b{:02}", n));
        assert_eq!(point.host, "h");
        assert_eq!(point.messages_sent, n as i64);
        // Nanoseconds, after the year 2020.
        assert!(point.time > 1_577_836_800_000_000_000);
    }
}
