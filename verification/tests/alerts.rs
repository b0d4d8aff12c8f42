use progressbox_agent::alerts::{
    brokers_in_turn, cooldown_key, due_checks, pending_checks, AlertBook, Check, NANOS_PER_SEC,
};
use progressbox_agent::config::AlertRule;
use progressbox_agent::metric::{breached, metric_value, Comparison, Metric, Operator};
use progressbox_agent::store::SharedState;
use progressbox_agent::types::{BrokerMetrics, FiredAlert, FloatBits, Reading};

const ABOVE: Comparison = Comparison { above: true, below: false, near: false };
const BELOW: Comparison = Comparison { above: false, below: true, near: false };
const NEAR: Comparison = Comparison { above: false, below: false, near: true };

fn bits(value: f64) -> FloatBits {
    FloatBits { bits: value.to_bits() }
}

fn rule(metric: &str, operator: &str, cooldown_secs: u64) -> AlertRule {
    AlertRule {
        metric: metric.to_string(),
        operator: operator.to_string(),
        threshold: bits(80.0),
        cooldown_secs,
    }
}

fn check(broker_id: &str) -> Check {
    Check { broker_id: broker_id.to_string(), rule: 0, value: Reading::Float(bits(91.5)) }
}

#[test]
fn metrics_are_read_by_name() {
    let metrics = BrokerMetrics {
        clients_connected: Some(1),
        messages_sent: Some(2),
        messages_received: Some(3),
        bytes_sent: Some(4),
        bytes_received: Some(5),
        cpu_percent: Some(bits(6.5)),
        mem_usage_mb: Some(bits(7.5)),
        net_rx_bytes: Some(8),
        net_tx_bytes: Some(9),
        last_updated_secs: Some(10),
        mqtt_online: true,
        docker_online: true,
    };
    let expected = [
        ("clients_connected", Reading::Count(1)),
        ("messages_sent", Reading::Count(2)),
        ("messages_received", Reading::Count(3)),
        ("bytes_sent", Reading::Count(4)),
        ("bytes_received", Reading::Count(5)),
        ("cpu_percent", Reading::Float(bits(6.5))),
        ("mem_usage_mb", Reading::Float(bits(7.5))),
        ("net_rx_bytes", Reading::Count(8)),
        ("net_tx_bytes", Reading::Count(9)),
    ];
    for (name, reading) in expected {
        assert_eq!(metric_value(&metrics, name), Some(reading));
        assert_eq!(metric_value(&BrokerMetrics::default(), name), None);
    }
    assert_eq!(metric_value(&metrics, "last_updated_secs"), None);
    assert_eq!(metric_value(&metrics, ""), None);
    assert_eq!(Metric::parse("cpu_percent"), Some(Metric::CpuPercent));
    assert_eq!(Metric::CpuPercent.read(&metrics), Some(Reading::Float(bits(6.5))));
    assert_eq!(Operator::parse("=="), Some(Operator::Equal));
    assert_eq!(Operator::parse("="), None);
}

#[test]
fn operators_pick_their_comparison() {
    assert!(breached(">", &ABOVE));
    assert!(!breached(">", &BELOW));
    assert!(!breached(">", &NEAR));
    assert!(breached("<", &BELOW));
    assert!(!breached("<", &ABOVE));
    assert!(breached("==", &NEAR));
    assert!(!breached("==", &ABOVE));
    assert!(!breached(">=", &Comparison { above: true, below: true, near: true }));
}

#[test]
fn only_readings_are_checked() {
    let entries = vec![
        ("a".to_string(), BrokerMetrics { bytes_sent: Some(7), ..BrokerMetrics::default() }),
        ("b".to_string(), BrokerMetrics::default()),
        (
            "c".to_string(),
            BrokerMetrics {
                bytes_sent: Some(8),
                cpu_percent: Some(bits(1.0)),
                ..BrokerMetrics::default()
            },
        ),
    ];
    let rules = vec![rule("cpu_percent", ">", 1), rule("bytes_sent", ">", 1)];
    let expected = vec![
        Check { broker_id: "a".to_string(), rule: 1, value: Reading::Count(7) },
        Check { broker_id: "c".to_string(), rule: 0, value: Reading::Float(bits(1.0)) },
        Check { broker_id: "c".to_string(), rule: 1, value: Reading::Count(8) },
    ];
    assert_eq!(pending_checks(&entries, &rules), expected);
    let mut state = SharedState::new();
    for (id, metrics) in &entries {
        state.insert(id, *metrics);
    }
    let mut brokers = brokers_in_turn(&state);
    brokers.sort();
    assert_eq!(brokers, vec!["a".to_string(), "b".to_string(), "c".to_string()]);
    let mut due: Vec<Check> = vec![];
    for broker in &brokers {
        due.extend(due_checks(&state, broker, &rules));
    }
    assert_eq!(due, expected);
}

#[test]
fn a_broker_is_read_when_its_turn_comes() {
    let rules = vec![rule("bytes_sent", ">", 1)];
    let mut state = SharedState::new();
    for id in ["a", "b"] {
        state.insert(id, BrokerMetrics { bytes_sent: Some(1), ..BrokerMetrics::default() });
    }
    assert_eq!(brokers_in_turn(&state).len(), 2);
    state.insert("a", BrokerMetrics { bytes_sent: Some(2), ..BrokerMetrics::default() });
    state.remove("b");
    let due = due_checks(&state, &"a".to_string(), &rules);
    assert_eq!(
        due,
        vec![Check { broker_id: "a".to_string(), rule: 0, value: Reading::Count(2) }]
    );
    assert!(due_checks(&state, &"b".to_string(), &rules).is_empty());
    assert!(brokers_in_turn(&SharedState::new()).is_empty());
}

#[test]
fn a_check_is_held_against_the_rule_that_it_names() {
    let rules = vec![rule("cpu_percent", ">", 60), rule("mem_usage_mb", "<", 60)];
    let second = Check { rule: 1, ..check("b1") };
    let mut book = AlertBook::new();
    assert_eq!(book.evaluate(&second, &rules, &ABOVE, 0, 1), None);
    let alert = book.evaluate(&second, &rules, &BELOW, 0, 1).unwrap();
    assert_eq!((alert.metric.as_str(), alert.operator.as_str()), ("mem_usage_mb", "<"));
    // The other metric of the broker is not kept quiet.
    assert!(book.evaluate(&check("b1"), &rules, &ABOVE, 0, 1).is_some());
}

#[test]
fn cooldown_key_joins_broker_and_metric() {
    assert_eq!(cooldown_key("b1", "cpu_percent"), "b1:cpu_percent");
    assert_ne!(cooldown_key("a:b", "cpu_percent"), cooldown_key("a", "cpu_percent"));
}

#[test]
fn breach_is_recorded_as_an_alert() {
    let mut book = AlertBook::new();
    let alert = book.evaluate(&check("b1"), &vec![rule("cpu_percent", ">", 60)], &ABOVE, 5, 1700000000);
    let expected = FiredAlert {
        id: 0,
        broker_id: "b1".to_string(),
        metric: "cpu_percent".to_string(),
        operator: ">".to_string(),
        value: Reading::Float(bits(91.5)),
        threshold: bits(80.0),
        fired_at: 1700000000,
        acknowledged: false,
    };
    assert_eq!(alert, Some(expected.clone()));
    assert_eq!(book.alerts(), &vec![expected]);
    assert_eq!(book.next_id(), 1);
}

#[test]
fn no_breach_no_alert() {
    let mut book = AlertBook::new();
    assert_eq!(book.evaluate(&check("b1"), &vec![rule("cpu_percent", ">", 60)], &BELOW, 5, 1), None);
    assert!(book.alerts().is_empty());
    // A reading that does not breach starts no cooldown.
    assert!(book.evaluate(&check("b1"), &vec![rule("cpu_percent", ">", 60)], &ABOVE, 6, 1).is_some());
}

#[test]
fn cooldown_keeps_an_alert_quiet() {
    let mut book = AlertBook::new();
    let rules = vec![rule("cpu_percent", ">", 60)];
    let start = 7 * NANOS_PER_SEC;
    assert!(book.evaluate(&check("b1"), &rules, &ABOVE, start, 1).is_some());
    assert_eq!(book.evaluate(&check("b1"), &rules, &ABOVE, start, 2), None);
    assert_eq!(book.evaluate(&check("b1"), &rules, &ABOVE, start + 60 * NANOS_PER_SEC - 1, 3), None);
    // A clock that went back counts as no time passed.
    assert_eq!(book.evaluate(&check("b1"), &rules, &ABOVE, 0, 3), None);
    let again = book.evaluate(&check("b1"), &rules, &ABOVE, start + 60 * NANOS_PER_SEC, 4);
    assert_eq!(again.unwrap().id, 1);
    // The cooldown runs from the last alert.
    assert_eq!(book.evaluate(&check("b1"), &rules, &ABOVE, start + 61 * NANOS_PER_SEC, 5), None);
    assert_eq!(book.alerts().len(), 2);
}

#[test]
fn cooldown_is_shared_by_the_rules_of_a_metric() {
    let mut book = AlertBook::new();
    assert!(book.evaluate(&check("b1"), &vec![rule("cpu_percent", ">", 60)], &ABOVE, 0, 1).is_some());
    let now = 30 * NANOS_PER_SEC;
    assert_eq!(book.evaluate(&check("b1"), &vec![rule("cpu_percent", "<", 60)], &BELOW, now, 2), None);
    // A rule with a shorter cooldown goes off sooner.
    assert!(book.evaluate(&check("b1"), &vec![rule("cpu_percent", "<", 30)], &BELOW, now, 3).is_some());
}

#[test]
fn cooldowns_of_brokers_and_metrics_are_independent() {
    let mut book = AlertBook::new();
    for (broker, metric) in [("b1", "cpu_percent"), ("b2", "cpu_percent"), ("b1", "mem_usage_mb")] {
        assert!(book.evaluate(&check(broker), &vec![rule(metric, ">", 60)], &ABOVE, 0, 1).is_some());
    }
    let ids: Vec<u64> = book.alerts().iter().map(|alert| alert.id).collect();
    assert_eq!(ids, vec![0, 1, 2]);
}

#[test]
fn the_book_only_grows() {
    let mut book = AlertBook::new();
    let mut earlier: Vec<FiredAlert> = vec![];
    for step in 0..12u128 {
        let broker = if step % 3 == 0 { "b1" } else { "b2" };
        let comparison = if step % 4 == 3 { BELOW } else { ABOVE };
        let fired = book.evaluate(
            &check(broker),
            &vec![rule("cpu_percent", ">", 2)],
            &comparison,
            step * NANOS_PER_SEC,
            step as i64,
        );
        let now = book.alerts().clone();
        assert_eq!(now[..earlier.len()], earlier[..]);
        assert_eq!(now.len(), earlier.len() + fired.is_some() as usize);
        assert_eq!(book.next_id(), now.len() as u64);
        for (place, alert) in now.iter().enumerate() {
            assert_eq!(alert.id, place as u64);
            assert!(!alert.acknowledged);
        }
        earlier = now;
    }
    assert!(earlier.len() > 2 && earlier.len() < 12);
}

#[test]
fn the_clock_runs_between_two_evaluations() {
    let mut book = AlertBook::new();
    let rules = vec![rule("cpu_percent", ">", 3600)];
    let first = book.evaluate_now(&check("b1"), &rules, &ABOVE).unwrap();
    // Unix time in seconds: after the year 2020 and before the year 5138.
    assert!(first.fired_at > 1_577_836_800 && first.fired_at < 100_000_000_000);
    assert_eq!(book.evaluate_now(&check("b1"), &rules, &ABOVE), None);
    assert_eq!(book.evaluate_now(&check("b2"), &rules, &BELOW), None);
    let short = vec![rule("cpu_percent", ">", 1)];
    let start = std::time::Instant::now();
    while start.elapsed().as_millis() < 1100 {}
    assert!(book.evaluate_now(&check("b1"), &short, &ABOVE).is_some());
}
