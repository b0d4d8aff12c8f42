use progressbox_agent::config::BrokerConfig;
use progressbox_agent::discovery::{
    broker_config_from_container, discovered_brokers, mark_discovered, monitor_filter, reconcile,
    unmark_discovered, was_previously_discovered, ContainerSummary, PortBinding, Protocol,
    Reconciliation,
};
use progressbox_agent::registry::{
    is_suppressed, list_brokers, register_tasks, spawn_broker, stop_broker, BrokerRuntime, Fleet,
};
use progressbox_agent::types::BrokerMetrics;

const RUNTIME: BrokerRuntime = BrokerRuntime { mqtt_interval: 5, docker_interval: 10 };

fn port(private_port: u16, public_port: Option<u16>, protocol: Protocol) -> PortBinding {
    PortBinding { private_port, public_port, protocol }
}

fn container(id: &str, name: &str, public_port: u16) -> ContainerSummary {
    ContainerSummary {
        labels: Some(vec![
            ("progressbox.monitor".to_string(), "true".to_string()),
            ("progressbox.broker_id".to_string(), id.to_string()),
        ]),
        names: Some(vec![name.to_string()]),
        ports: Some(vec![
            port(9001, Some(9001), Protocol::Tcp),
            port(1883, Some(public_port), Protocol::Tcp),
        ]),
    }
}

fn pass(fleet: &mut Fleet<u32>, containers: &Vec<ContainerSummary>, first_task: u32) -> Reconciliation<u32> {
    let outcome = reconcile(containers, &RUNTIME, fleet);
    let mut task = first_task;
    for order in &outcome.spawn {
        register_tasks(&order.broker.id, task, task + 1, fleet);
        task += 2;
    }
    outcome
}

fn spawned(outcome: &Reconciliation<u32>) -> Vec<String> {
    let mut ids: Vec<String> = outcome.spawn.iter().map(|o| o.broker.id.clone()).collect();
    ids.sort();
    ids
}

fn stopped(outcome: &Reconciliation<u32>) -> Vec<String> {
    let mut ids: Vec<String> = outcome.stopped.iter().map(|s| s.id.clone()).collect();
    ids.sort();
    ids
}

#[test]
fn filter_names_the_label() {
    assert_eq!(monitor_filter(), "progressbox.monitor=true");
}

#[test]
fn container_becomes_a_broker() {
    assert_eq!(
        broker_config_from_container(&container("b1", "/mosquitto", 32768)),
        Some(BrokerConfig {
            id: "b1".to_string(),
            mqtt_host: "localhost".to_string(),
            mqtt_port: 32768,
            container_name: "mosquitto".to_string(),
        })
    );
}

#[test]
fn misconfigured_containers_are_passed_over() {
    let good = || container("b1", "/m", 1);
    let without_labels = ContainerSummary { labels: None, ..good() };
    let without_id = ContainerSummary {
        labels: Some(vec![("progressbox.monitor".to_string(), "true".to_string())]),
        ..good()
    };
    let without_names = ContainerSummary { names: None, ..good() };
    let with_no_name = ContainerSummary { names: Some(vec![]), ..good() };
    let without_ports = ContainerSummary { ports: None, ..good() };
    let with_other_port =
        ContainerSummary { ports: Some(vec![port(80, Some(80), Protocol::Tcp)]), ..good() };
    let unpublished =
        ContainerSummary { ports: Some(vec![port(1883, None, Protocol::Tcp)]), ..good() };
    for bad in [
        without_labels, without_id, without_names, with_no_name, without_ports, with_other_port,
        unpublished,
    ] {
        assert_eq!(broker_config_from_container(&bad), None);
        assert!(discovered_brokers(&vec![bad]).is_empty());
    }
}

#[test]
fn only_tcp_ports_count() {
    let ports = |list: Vec<PortBinding>| ContainerSummary {
        ports: Some(list),
        ..container("b1", "/m", 1)
    };
    let udp_first = ports(vec![
        port(1883, Some(1000), Protocol::Udp),
        port(1883, Some(1500), Protocol::Sctp),
        port(1883, Some(2000), Protocol::Tcp),
    ]);
    assert_eq!(broker_config_from_container(&udp_first).unwrap().mqtt_port, 2000);
    let unspecified = ports(vec![port(1883, Some(3000), Protocol::Unspecified)]);
    assert_eq!(broker_config_from_container(&unspecified).unwrap().mqtt_port, 3000);
    // The first binding decides, even where it is not published.
    let first = ports(vec![port(1883, None, Protocol::Tcp), port(1883, Some(1), Protocol::Tcp)]);
    assert_eq!(broker_config_from_container(&first), None);
}

#[test]
fn the_last_container_of_an_id_counts() {
    let list = discovered_brokers(&vec![
        container("a", "/one", 1),
        container("b", "/two", 2),
        container("a", "/three", 3),
    ]);
    assert_eq!(list.len(), 2);
    let a = list.iter().find(|b| b.id == "a").unwrap();
    assert_eq!((a.mqtt_port, a.container_name.as_str()), (3, "three"));
}

#[test]
fn discovered_marks_are_a_set() {
    let mut fleet: Fleet<u32> = Fleet::new();
    assert!(!was_previously_discovered(&fleet.discovered, "a"));
    mark_discovered(&mut fleet.discovered, "a");
    assert!(was_previously_discovered(&fleet.discovered, "a"));
    unmark_discovered(&mut fleet.discovered, "a");
    assert!(!was_previously_discovered(&fleet.discovered, "a"));
}

#[test]
fn new_brokers_are_brought_up() {
    let mut fleet: Fleet<u32> = Fleet::new();
    let containers = vec![container("a", "/one", 1), container("b", "/two", 2)];
    let outcome = pass(&mut fleet, &containers, 1);
    assert_eq!(spawned(&outcome), vec!["a".to_string(), "b".to_string()]);
    assert!(outcome.spawn.iter().all(|o| o.abort.is_empty()));
    assert!(outcome.spawn.iter().all(|o| o.mqtt_interval == 5 && o.docker_interval == 10));
    assert!(outcome.stopped.is_empty());
    assert!(was_previously_discovered(&fleet.discovered, "a"));
    // A second pass over the same containers has nothing to do.
    let again = pass(&mut fleet, &containers, 10);
    assert!(again.spawn.is_empty());
    assert!(again.stopped.is_empty());
}

#[test]
fn vanished_brokers_are_taken_off_and_come_back_as_new() {
    let mut fleet: Fleet<u32> = Fleet::new();
    pass(&mut fleet, &vec![container("a", "/one", 1)], 1);
    fleet.state.insert("a", BrokerMetrics::default());
    let outcome = pass(&mut fleet, &vec![], 3);
    assert_eq!(stopped(&outcome), vec!["a".to_string()]);
    assert_eq!(outcome.stopped[0].abort, vec![1, 2]);
    assert_eq!(fleet.state.get("a"), None);
    assert!(!is_suppressed(&fleet.suppressed, "a"));
    assert!(!was_previously_discovered(&fleet.discovered, "a"));
    let back = pass(&mut fleet, &vec![container("a", "/one", 1)], 5);
    assert_eq!(spawned(&back), vec!["a".to_string()]);
}

#[test]
fn removal_by_hand_sticks_until_the_label_goes() {
    let mut fleet: Fleet<u32> = Fleet::new();
    let labelled = vec![container("a", "/one", 1)];
    pass(&mut fleet, &labelled, 1);
    assert_eq!(stop_broker("a", &mut fleet), Some(vec![1, 2]));
    for _ in 0..3 {
        assert!(pass(&mut fleet, &labelled, 3).spawn.is_empty());
        assert!(is_suppressed(&fleet.suppressed, "a"));
    }
    assert!(pass(&mut fleet, &vec![], 5).spawn.is_empty());
    assert!(!is_suppressed(&fleet.suppressed, "a"));
    assert_eq!(spawned(&pass(&mut fleet, &labelled, 7)), vec!["a".to_string()]);
}

#[test]
fn hand_registered_brokers_are_left_alone() {
    let mut fleet: Fleet<u32> = Fleet::new();
    let broker = broker_config_from_container(&container("hand", "/h", 1)).unwrap();
    spawn_broker(broker, &RUNTIME, &mut fleet);
    register_tasks("hand", 1, 2, &mut fleet);
    fleet.state.insert("hand", BrokerMetrics::default());
    let outcome = pass(&mut fleet, &vec![container("a", "/one", 1)], 3);
    assert_eq!(spawned(&outcome), vec!["a".to_string()]);
    assert!(outcome.stopped.is_empty());
    let later = pass(&mut fleet, &vec![], 5);
    assert_eq!(stopped(&later), vec!["a".to_string()]);
    assert_eq!(list_brokers(&fleet.registry), vec!["hand".to_string()]);
    assert!(fleet.state.get("hand").is_some());
}

#[test]
fn hand_registration_after_the_label_went_is_left_alone() {
    let mut fleet: Fleet<u32> = Fleet::new();
    let labelled = vec![container("x", "/one", 1)];
    assert_eq!(spawned(&pass(&mut fleet, &labelled, 1)), vec!["x".to_string()]);
    assert!(was_previously_discovered(&fleet.discovered, "x"));
    assert_eq!(stop_broker("x", &mut fleet), Some(vec![1, 2]));
    pass(&mut fleet, &vec![], 3);
    assert!(!was_previously_discovered(&fleet.discovered, "x"));
    assert!(!is_suppressed(&fleet.suppressed, "x"));
    let broker = broker_config_from_container(&labelled[0]).unwrap();
    spawn_broker(broker, &RUNTIME, &mut fleet);
    register_tasks("x", 5, 6, &mut fleet);
    fleet.state.insert("x", BrokerMetrics::default());
    for _ in 0..3 {
        let outcome = pass(&mut fleet, &vec![], 7);
        assert!(outcome.stopped.is_empty());
        assert!(outcome.spawn.is_empty());
    }
    assert_eq!(list_brokers(&fleet.registry), vec!["x".to_string()]);
    assert!(fleet.state.get("x").is_some());
    assert_eq!(fleet.registry.remove("x"), Some(vec![5, 6]));
}

#[test]
fn what_a_pass_does_not_find_is_forgotten() {
    let mut fleet: Fleet<u32> = Fleet::new();
    let both = vec![container("a", "/one", 1), container("b", "/two", 2)];
    pass(&mut fleet, &both, 1);
    stop_broker("a", &mut fleet);
    mark_discovered(&mut fleet.discovered, "stray");
    pass(&mut fleet, &vec![container("b", "/two", 2)], 5);
    assert!(!was_previously_discovered(&fleet.discovered, "a"));
    assert!(!was_previously_discovered(&fleet.discovered, "stray"));
    assert!(was_previously_discovered(&fleet.discovered, "b"));
}

#[test]
fn hand_registration_between_two_passes_is_left_alone() {
    let mut fleet: Fleet<u32> = Fleet::new();
    let labelled = vec![container("x", "/one", 1)];
    pass(&mut fleet, &labelled, 1);
    let broker = broker_config_from_container(&labelled[0]).unwrap();
    assert_eq!(spawn_broker(broker, &RUNTIME, &mut fleet).abort, vec![1, 2]);
    register_tasks("x", 5, 6, &mut fleet);
    assert!(pass(&mut fleet, &vec![], 7).stopped.is_empty());
    assert!(fleet.registry.contains("x"));
    // Found labelled again, it is discovery's to take off.
    assert!(pass(&mut fleet, &labelled, 9).spawn.is_empty());
    assert_eq!(stopped(&pass(&mut fleet, &vec![], 11)), vec!["x".to_string()]);
}
