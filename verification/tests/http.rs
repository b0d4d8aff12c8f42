use progressbox_agent::alerts::{AlertBook, Check};
use progressbox_agent::config::{AlertRule, BrokerConfig, IntervalsConfig};
use progressbox_agent::http::{
    delete_broker, get_alerts, get_brokers, get_metrics, get_metrics_at, metrics_response,
    post_broker, stale_threshold, AlertsQuery, AppState, BrokerMetricsResponse, Registration,
    Status,
};
use progressbox_agent::metric::Comparison;
use progressbox_agent::registry::{is_suppressed, register_tasks, BrokerRuntime, Fleet};
use progressbox_agent::types::{BrokerMetrics, FloatBits, Reading};

fn app() -> AppState<u32> {
    AppState {
        fleet: Fleet::new(),
        stale_threshold_secs: 10,
        runtime: BrokerRuntime { mqtt_interval: 5, docker_interval: 7 },
        alerts: AlertBook::new(),
    }
}

fn broker(id: &str) -> BrokerConfig {
    BrokerConfig {
        id: id.to_string(),
        mqtt_host: "localhost".to_string(),
        mqtt_port: 1883,
        container_name: "c".to_string(),
    }
}

fn fire(state: &mut AppState<u32>, broker_id: &str, metric: &str) {
    let check = Check { broker_id: broker_id.to_string(), rule: 0, value: Reading::Count(1) };
    let rule = AlertRule {
        metric: metric.to_string(),
        operator: ">".to_string(),
        threshold: FloatBits { bits: 0 },
        cooldown_secs: 1,
    };
    let above = Comparison { above: true, below: false, near: false };
    assert!(state.alerts.evaluate(&check, &vec![rule], &above, 0, 1).is_some());
}

fn query(acknowledged: Option<bool>, broker_id: Option<&str>, metric: Option<&str>) -> AlertsQuery {
    AlertsQuery {
        acknowledged,
        broker_id: broker_id.map(|text| text.to_string()),
        metric: metric.map(|text| text.to_string()),
    }
}

fn selected(state: &AppState<u32>, query: &AlertsQuery) -> Vec<u64> {
    let envelope = get_alerts(state, query);
    assert_eq!(envelope.count, envelope.alerts.len());
    envelope.alerts.iter().map(|alert| alert.id).collect()
}

fn post(state: &mut AppState<u32>, id: &str, first_task: u32) -> Vec<u32> {
    match post_broker(state, broker(id)) {
        (Status::Created, Registration::Registered { id: told, order }) => {
            assert_eq!(told, id);
            assert_eq!(order.broker, broker(id));
            assert_eq!(order.mqtt_interval, 5);
            assert_eq!(order.docker_interval, 7);
            register_tasks(id, first_task, first_task + 1, &mut state.fleet);
            order.abort
        }
        other => panic!("not registered: {:?}", other),
    }
}

#[test]
fn threshold_is_two_mqtt_intervals() {
    let intervals = |mqtt_scrape_secs: u64| IntervalsConfig {
        mqtt_scrape_secs,
        docker_scrape_secs: 1000,
        influx_write_secs: 1000,
    };
    assert_eq!(stale_threshold(&intervals(5)), 10);
    assert_eq!(stale_threshold(&intervals(0)), 0);
    assert_eq!(stale_threshold(&intervals(4611686018427387904)), i64::MIN);
}

#[test]
fn alerts_are_filtered() {
    let mut state = app();
    fire(&mut state, "a", "cpu_percent");
    fire(&mut state, "b", "cpu_percent");
    fire(&mut state, "a", "bytes_sent");
    assert_eq!(selected(&state, &query(None, None, None)), vec![0, 1, 2]);
    assert_eq!(selected(&state, &query(Some(false), None, None)), vec![0, 1, 2]);
    assert_eq!(selected(&state, &query(Some(true), None, None)), Vec::<u64>::new());
    assert_eq!(selected(&state, &query(None, Some("a"), None)), vec![0, 2]);
    assert_eq!(selected(&state, &query(None, None, Some("cpu_percent"))), vec![0, 1]);
    assert_eq!(selected(&state, &query(Some(false), Some("a"), Some("cpu_percent"))), vec![0]);
    assert_eq!(selected(&state, &query(None, Some("A"), None)), Vec::<u64>::new());
    let envelope = get_alerts(&state, &query(None, Some("b"), None));
    assert_eq!(&envelope.alerts[0], &state.alerts.alerts()[1]);
}

#[test]
fn figures_are_shown_as_they_are_held() {
    let metrics = BrokerMetrics {
        clients_connected: Some(1),
        messages_sent: Some(2),
        messages_received: Some(3),
        bytes_sent: Some(4),
        bytes_received: Some(5),
        cpu_percent: Some(FloatBits { bits: 6 }),
        mem_usage_mb: Some(FloatBits { bits: 7 }),
        net_rx_bytes: Some(8),
        net_tx_bytes: Some(9),
        last_updated_secs: Some(100),
        mqtt_online: true,
        docker_online: false,
    };
    assert_eq!(
        metrics_response("b1".to_string(), &metrics, 110, 10),
        BrokerMetricsResponse {
            broker_id: "b1".to_string(),
            clients_connected: Some(1),
            messages_sent: Some(2),
            messages_received: Some(3),
            bytes_sent: Some(4),
            bytes_received: Some(5),
            cpu_percent: Some(FloatBits { bits: 6 }),
            mem_usage_mb: Some(FloatBits { bits: 7 }),
            net_rx_bytes: Some(8),
            net_tx_bytes: Some(9),
            last_updated_secs: Some(100),
            stale: false,
            mqtt_online: true,
            docker_online: false,
            online: false,
        }
    );
}

#[test]
fn broker_is_online_when_both_tasks_are_healthy() {
    for mqtt_online in [false, true] {
        for docker_online in [false, true] {
            let metrics = BrokerMetrics { mqtt_online, docker_online, ..BrokerMetrics::default() };
            let response = metrics_response("b".to_string(), &metrics, 0, 0);
            assert_eq!(response.online, mqtt_online && docker_online);
        }
    }
}

#[test]
fn staleness_follows_the_threshold() {
    let stale = |last: Option<i64>, now: i64| {
        let metrics = BrokerMetrics { last_updated_secs: last, ..BrokerMetrics::default() };
        metrics_response("b".to_string(), &metrics, now, 10).stale
    };
    assert!(stale(None, 0));
    assert!(!stale(Some(100), 100));
    assert!(!stale(Some(100), 110));
    assert!(stale(Some(100), 111));
    assert!(stale(Some(100), 1_000_000));
    assert!(!stale(Some(100), 50));
    assert!(stale(Some(i64::MIN), i64::MAX));
    assert!(!stale(Some(i64::MAX), i64::MIN));
}

#[test]
fn brokers_are_shown_sorted() {
    let mut state = app();
    for (id, last) in [("c", 95), ("a", 80), ("b", 90)] {
        state.fleet.state.insert(
            id,
            BrokerMetrics { last_updated_secs: Some(last), ..BrokerMetrics::default() },
        );
    }
    let envelope = get_metrics_at(&state, 100);
    assert_eq!(envelope.count, 3);
    let shown: Vec<(&str, bool)> =
        envelope.brokers.iter().map(|b| (b.broker_id.as_str(), b.stale)).collect();
    assert_eq!(shown, vec![("a", true), ("b", false), ("c", false)]);
    let present = get_metrics(&state);
    assert_eq!(present.count, 3);
    assert!(present.brokers.iter().all(|b| b.stale));
    assert_eq!(get_metrics_at(&app(), 0).count, 0);
}

#[test]
fn registered_brokers_are_listed_sorted() {
    let mut state = app();
    for id in ["c", "a", "b"] {
        post(&mut state, id, 1);
    }
    let envelope = get_brokers(&state);
    assert_eq!(envelope.brokers, vec!["a".to_string(), "b".to_string(), "c".to_string()]);
    assert_eq!(envelope.count, 3);
    assert_eq!(get_brokers(&app()).count, 0);
}

#[test]
fn blank_ids_are_turned_down() {
    let mut state = app();
    for id in ["", "  ", "\t\n", "\u{2003}"] {
        match post_broker(&mut state, broker(id)) {
            (Status::BadRequest, Registration::Rejected(response)) => {
                assert_eq!(response.error, "broker id must not be empty");
            }
            other => panic!("not turned down: {:?}", other),
        }
    }
    assert_eq!(get_brokers(&state).count, 0);
}

#[test]
fn posting_twice_replaces_the_tasks() {
    let mut state = app();
    assert_eq!(post(&mut state, "a", 1), vec![]);
    assert_eq!(post(&mut state, "a", 3), vec![1, 2]);
    assert_eq!(get_brokers(&state).brokers, vec!["a".to_string()]);
    // The id is kept as it was written.
    assert_eq!(post(&mut state, " a ", 5), vec![]);
    assert_eq!(get_brokers(&state).count, 2);
}

#[test]
fn deleting_takes_a_broker_off() {
    let mut state = app();
    post(&mut state, "a", 1);
    state.fleet.state.insert("a", BrokerMetrics::default());
    let removal = delete_broker(&mut state, "a");
    assert_eq!(removal.status, Status::NoContent);
    assert_eq!(removal.abort, vec![1, 2]);
    assert_eq!(get_brokers(&state).count, 0);
    assert_eq!(get_metrics_at(&state, 0).count, 0);
    assert!(is_suppressed(&state.fleet.suppressed, "a"));
    let again = delete_broker(&mut state, "a");
    assert_eq!(again.status, Status::NotFound);
    assert!(again.abort.is_empty());
    post(&mut state, "a", 3);
    assert!(!is_suppressed(&state.fleet.suppressed, "a"));
}

#[test]
fn repeated_answers_are_the_same() {
    let ids = ["b10", "b2", "B1", "é", "a"];
    let mut one = app();
    let mut other = app();
    for id in ids {
        one.fleet.state.insert(id, BrokerMetrics::default());
        post(&mut one, id, 1);
    }
    for id in ids.iter().rev() {
        other.fleet.state.insert(id, BrokerMetrics::default());
        post(&mut other, id, 1);
    }
    assert_eq!(get_metrics_at(&one, 5), get_metrics_at(&one, 5));
    assert_eq!(get_metrics_at(&one, 5), get_metrics_at(&other, 5));
    assert_eq!(get_brokers(&one), get_brokers(&other));
}
