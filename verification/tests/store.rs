use progressbox_agent::ids::IdSet;
use progressbox_agent::store::{CooldownState, SharedState};
use progressbox_agent::types::BrokerMetrics;

fn with_clients(n: u64) -> BrokerMetrics {
    BrokerMetrics { clients_connected: Some(n), ..BrokerMetrics::default() }
}

#[test]
fn state_holds_what_was_inserted() {
    let mut state = SharedState::new();
    assert!(state.entries().is_empty());
    assert_eq!(state.get("a"), None);
    assert_eq!(state.get_or_default("a"), BrokerMetrics::default());
    state.insert("a", with_clients(1));
    state.insert("b", with_clients(2));
    state.insert("a", with_clients(3));
    assert_eq!(state.get("a"), Some(with_clients(3)));
    assert_eq!(state.get_or_default("b"), with_clients(2));
    let mut entries = state.entries();
    entries.sort_by(|x, y| x.0.cmp(&y.0));
    assert_eq!(
        entries,
        vec![("a".to_string(), with_clients(3)), ("b".to_string(), with_clients(2))]
    );
    state.remove("a");
    state.remove("never there");
    assert_eq!(state.get("a"), None);
    assert_eq!(state.entries().len(), 1);
}

#[test]
fn cooldowns_hold_what_was_inserted() {
    let mut cooldowns = CooldownState::new();
    assert_eq!(cooldowns.get("a:cpu_percent"), None);
    cooldowns.insert("a:cpu_percent".to_string(), 5);
    cooldowns.insert("b:cpu_percent".to_string(), 6);
    cooldowns.insert("a:cpu_percent".to_string(), 7);
    assert_eq!(cooldowns.get("a:cpu_percent"), Some(7));
    assert_eq!(cooldowns.get("b:cpu_percent"), Some(6));
}

#[test]
fn nothing_is_known_of_a_new_broker() {
    let metrics = BrokerMetrics::default();
    assert_eq!(metrics.clients_connected, None);
    assert_eq!(metrics.last_updated_secs, None);
    assert!(!metrics.mqtt_online);
    assert!(!metrics.docker_online);
}

#[test]
fn id_set_holds_each_id_once() {
    let mut ids = IdSet::new();
    ids.insert("a");
    ids.insert("b");
    ids.insert("a");
    assert!(ids.contains("a"));
    assert!(!ids.contains("c"));
    let mut listed = ids.to_vec();
    listed.sort();
    assert_eq!(listed, vec!["a".to_string(), "b".to_string()]);
    ids.remove("a");
    ids.remove("c");
    assert!(!ids.contains("a"));
    assert_eq!(ids.to_vec(), vec!["b".to_string()]);
}
