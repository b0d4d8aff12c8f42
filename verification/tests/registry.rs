use progressbox_agent::config::BrokerConfig;
use progressbox_agent::registry::{
    is_suppressed, list_brokers, new_registry, register_tasks, spawn_broker, stop_broker,
    stop_broker_no_suppress, suppress, suppressed_ids, unsuppress, BrokerRegistry, BrokerRuntime,
    Fleet,
};
use progressbox_agent::types::BrokerMetrics;

const RUNTIME: BrokerRuntime = BrokerRuntime { mqtt_interval: 5, docker_interval: 10 };

fn broker(id: &str) -> BrokerConfig {
    BrokerConfig {
        id: id.to_string(),
        mqtt_host: "localhost".to_string(),
        mqtt_port: 1883,
        container_name: "c".to_string(),
    }
}

fn register(fleet: &mut Fleet<u32>, id: &str, mqtt: u32, docker: u32) -> Vec<u32> {
    let order = spawn_broker(broker(id), &RUNTIME, fleet);
    register_tasks(id, mqtt, docker, fleet);
    order.abort
}

#[test]
fn registry_keeps_handles_by_id() {
    let mut registry: BrokerRegistry<u32> = new_registry();
    assert!(list_brokers(&registry).is_empty());
    registry.insert("a", vec![1, 2]);
    registry.insert("b", vec![3]);
    registry.insert("a", vec![4]);
    assert!(registry.contains("a"));
    assert!(!registry.contains("c"));
    let mut ids = list_brokers(&registry);
    ids.sort();
    assert_eq!(ids, vec!["a".to_string(), "b".to_string()]);
    assert_eq!(registry.remove("a"), Some(vec![4]));
    assert_eq!(registry.remove("a"), None);
    assert_eq!(list_brokers(&registry), vec!["b".to_string()]);
}

#[test]
fn spawn_order_carries_the_broker_and_the_intervals() {
    let mut fleet: Fleet<u32> = Fleet::new();
    let order = spawn_broker(broker("a"), &RUNTIME, &mut fleet);
    assert_eq!(order.broker, broker("a"));
    assert_eq!(order.mqtt_interval, 5);
    assert_eq!(order.docker_interval, 10);
    assert!(order.abort.is_empty());
    assert!(!fleet.registry.contains("a"));
    register_tasks("a", 1, 2, &mut fleet);
    assert!(fleet.registry.contains("a"));
}

#[test]
fn registering_twice_replaces_the_tasks() {
    let mut fleet: Fleet<u32> = Fleet::new();
    assert_eq!(register(&mut fleet, "a", 1, 2), vec![]);
    fleet.state.insert("a", BrokerMetrics { bytes_sent: Some(1), ..BrokerMetrics::default() });
    assert_eq!(register(&mut fleet, "a", 3, 4), vec![1, 2]);
    assert_eq!(list_brokers(&fleet.registry), vec!["a".to_string()]);
    assert_eq!(fleet.state.get("a"), None);
    assert_eq!(fleet.registry.remove("a"), Some(vec![3, 4]));
}

#[test]
fn stopping_forgets_the_metrics_and_suppresses() {
    let mut fleet: Fleet<u32> = Fleet::new();
    register(&mut fleet, "a", 1, 2);
    register(&mut fleet, "b", 3, 4);
    fleet.state.insert("a", BrokerMetrics::default());
    fleet.state.insert("b", BrokerMetrics::default());
    assert_eq!(stop_broker("a", &mut fleet), Some(vec![1, 2]));
    assert_eq!(fleet.state.get("a"), None);
    assert!(fleet.state.get("b").is_some());
    assert!(is_suppressed(&fleet.suppressed, "a"));
    assert!(!is_suppressed(&fleet.suppressed, "b"));
    assert_eq!(list_brokers(&fleet.registry), vec!["b".to_string()]);
    assert_eq!(stop_broker("a", &mut fleet), None);
}

#[test]
fn stopping_an_unknown_broker_changes_nothing() {
    let mut fleet: Fleet<u32> = Fleet::new();
    fleet.state.insert("x", BrokerMetrics::default());
    assert_eq!(stop_broker("x", &mut fleet), None);
    assert!(!is_suppressed(&fleet.suppressed, "x"));
    assert!(fleet.state.get("x").is_some());
    assert_eq!(stop_broker_no_suppress("x", &mut fleet), None);
}

#[test]
fn stopping_without_suppression() {
    let mut fleet: Fleet<u32> = Fleet::new();
    register(&mut fleet, "a", 1, 2);
    fleet.state.insert("a", BrokerMetrics::default());
    assert_eq!(stop_broker_no_suppress("a", &mut fleet), Some(vec![1, 2]));
    assert_eq!(fleet.state.get("a"), None);
    assert!(!is_suppressed(&fleet.suppressed, "a"));
}

#[test]
fn registering_lifts_the_suppression() {
    let mut fleet: Fleet<u32> = Fleet::new();
    register(&mut fleet, "a", 1, 2);
    stop_broker("a", &mut fleet);
    assert!(is_suppressed(&fleet.suppressed, "a"));
    register(&mut fleet, "a", 3, 4);
    assert!(!is_suppressed(&fleet.suppressed, "a"));
    assert!(fleet.registry.contains("a"));
}

#[test]
fn suppression_is_a_set() {
    let mut fleet: Fleet<u32> = Fleet::new();
    suppress(&mut fleet.suppressed, "a");
    suppress(&mut fleet.suppressed, "a");
    suppress(&mut fleet.suppressed, "b");
    let mut ids = suppressed_ids(&fleet.suppressed);
    ids.sort();
    assert_eq!(ids, vec!["a".to_string(), "b".to_string()]);
    unsuppress(&mut fleet.suppressed, "a");
    assert!(!is_suppressed(&fleet.suppressed, "a"));
    assert!(is_suppressed(&fleet.suppressed, "b"));
}
