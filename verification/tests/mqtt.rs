use progressbox_agent::mqtt::{
    apply_message, client_id, handle_mqtt, handle_mqtt_at, MqttAction, MqttEvent, SysCounter,
    SYS_TOPICS,
};
use progressbox_agent::store::SharedState;
use progressbox_agent::types::{BrokerMetrics, FloatBits};

fn publish(topic: &str, payload: &[u8]) -> MqttEvent {
    MqttEvent::Publish { topic: topic.to_string(), payload: payload.to_vec() }
}

fn busy() -> BrokerMetrics {
    BrokerMetrics {
        clients_connected: Some(1),
        messages_sent: Some(2),
        messages_received: Some(3),
        bytes_sent: Some(4),
        bytes_received: Some(5),
        cpu_percent: Some(FloatBits { bits: 6 }),
        mem_usage_mb: Some(FloatBits { bits: 7 }),
        net_rx_bytes: Some(8),
        net_tx_bytes: Some(9),
        last_updated_secs: Some(10),
        mqtt_online: true,
        docker_online: true,
    }
}

#[test]
fn client_id_names_the_broker() {
    assert_eq!(client_id("b1"), "cloud-monitoring-agent-b1");
    assert_eq!(SYS_TOPICS, "$SYS/#");
}

#[test]
fn topics_carry_their_counters() {
    assert_eq!(SysCounter::of_topic("$SYS/broker/clients/connected"), Some(SysCounter::ClientsConnected));
    assert_eq!(SysCounter::of_topic("$SYS/broker/messages/sent"), Some(SysCounter::MessagesSent));
    assert_eq!(SysCounter::of_topic("$SYS/broker/messages/received"), Some(SysCounter::MessagesReceived));
    assert_eq!(SysCounter::of_topic("$SYS/broker/bytes/sent"), Some(SysCounter::BytesSent));
    assert_eq!(SysCounter::of_topic("$SYS/broker/bytes/received"), Some(SysCounter::BytesReceived));
    assert_eq!(SysCounter::of_topic("$SYS/broker/uptime"), None);
    assert_eq!(SysCounter::of_topic("$SYS/broker/bytes/sent/"), None);
}

#[test]
fn messages_set_their_counter_only() {
    let base = busy();
    let stamped = BrokerMetrics { last_updated_secs: Some(99), ..base };
    let expected = [
        ("$SYS/broker/clients/connected", BrokerMetrics { clients_connected: Some(42), ..stamped }),
        ("$SYS/broker/messages/sent", BrokerMetrics { messages_sent: Some(42), ..stamped }),
        ("$SYS/broker/messages/received", BrokerMetrics { messages_received: Some(42), ..stamped }),
        ("$SYS/broker/bytes/sent", BrokerMetrics { bytes_sent: Some(42), ..stamped }),
        ("$SYS/broker/bytes/received", BrokerMetrics { bytes_received: Some(42), ..stamped }),
        ("$SYS/broker/version", stamped),
    ];
    for (topic, metrics) in expected {
        assert_eq!(apply_message(&base, topic, "42", 99), metrics);
        assert_eq!(apply_message(&base, topic, " 42\r\n", 99), metrics);
    }
}

#[test]
fn unreadable_counters_become_unknown() {
    for payload in ["", "abc", "-1", "1.5", "18446744073709551616"] {
        let after = apply_message(&busy(), "$SYS/broker/bytes/sent", payload, 99);
        assert_eq!(after, BrokerMetrics { bytes_sent: None, last_updated_secs: Some(99), ..busy() });
    }
}

#[test]
fn published_bytes_are_decoded() {
    let mut state = SharedState::new();
    let event = publish("$SYS/broker/clients/connected", b"17\n");
    assert_eq!(handle_mqtt_at(&mut state, "b1", &event, 5), MqttAction::Poll);
    assert_eq!(
        state.get("b1"),
        Some(BrokerMetrics {
            clients_connected: Some(17),
            last_updated_secs: Some(5),
            ..BrokerMetrics::default()
        })
    );
    // U+2003, an em space in three bytes, is trimmed off.
    let spaced = publish("$SYS/broker/clients/connected", &[0xe2, 0x80, 0x83, b'8']);
    handle_mqtt_at(&mut state, "b1", &spaced, 6);
    assert_eq!(state.get("b1").unwrap().clients_connected, Some(8));
    // What is not UTF-8 is no number.
    let broken = publish("$SYS/broker/clients/connected", &[b'8', 0xff]);
    handle_mqtt_at(&mut state, "b1", &broken, 7);
    assert_eq!(state.get("b1").unwrap().clients_connected, None);
    assert_eq!(state.get("b1").unwrap().last_updated_secs, Some(7));
}

#[test]
fn connection_events_set_the_mark_and_the_action() {
    let mut state = SharedState::new();
    state.insert("other", busy());
    assert_eq!(handle_mqtt_at(&mut state, "b1", &MqttEvent::Subscribed, 1), MqttAction::Poll);
    assert_eq!(
        state.get("b1"),
        Some(BrokerMetrics { mqtt_online: true, ..BrokerMetrics::default() })
    );
    state.insert("b1", busy());
    for event in [MqttEvent::ConnectionLost, MqttEvent::SubscribeFailed] {
        assert_eq!(handle_mqtt_at(&mut state, "b1", &event, 2), MqttAction::Reconnect);
        assert_eq!(state.get("b1"), Some(BrokerMetrics { mqtt_online: false, ..busy() }));
        handle_mqtt_at(&mut state, "b1", &MqttEvent::Subscribed, 3);
        assert_eq!(state.get("b1"), Some(busy()));
    }
    assert_eq!(state.get("other"), Some(busy()));
}

#[test]
fn other_events_change_nothing() {
    let mut state = SharedState::new();
    assert_eq!(handle_mqtt_at(&mut state, "b1", &MqttEvent::Other, 1), MqttAction::Poll);
    assert!(state.entries().is_empty());
}

#[test]
fn messages_are_stamped_with_the_present_time() {
    let mut state = SharedState::new();
    assert_eq!(handle_mqtt(&mut state, "b1", &publish("x", b"")), MqttAction::Poll);
    let time = state.get("b1").unwrap().last_updated_secs.unwrap();
    assert!(time > 1_577_836_800 && time < 100_000_000_000);
    assert_eq!(handle_mqtt(&mut state, "b1", &MqttEvent::ConnectionLost), MqttAction::Reconnect);
}
