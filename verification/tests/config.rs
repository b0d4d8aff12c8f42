use progressbox_agent::config::{
    validate_rules, AlertRule, BrokerConfig, Config, ConfigRaw, ConfigSource, EmailConfigRaw,
    InfluxConfig, IntervalsConfig,
};
use progressbox_agent::types::FloatBits;

fn rule(metric: &str, operator: &str, cooldown_secs: u64) -> AlertRule {
    AlertRule {
        metric: metric.to_string(),
        operator: operator.to_string(),
        threshold: FloatBits { bits: 80.0f64.to_bits() },
        cooldown_secs,
    }
}

fn raw(alert_rules: Vec<AlertRule>) -> ConfigRaw {
    ConfigRaw {
        influxdb: InfluxConfig {
            url: "http://localhost:8086".to_string(),
            org: "org".to_string(),
            bucket: "bucket".to_string(),
            token: "token".to_string(),
        },
        intervals: IntervalsConfig {
            mqtt_scrape_secs: 5,
            docker_scrape_secs: 10,
            influx_write_secs: 15,
        },
        brokers: vec![BrokerConfig {
            id: "b1".to_string(),
            mqtt_host: "localhost".to_string(),
            mqtt_port: 1883,
            container_name: "mosquitto".to_string(),
        }],
        email: EmailConfigRaw {
            smtp_host: "smtp.example.org".to_string(),
            smtp_port: 587,
            from: "agent@example.org".to_string(),
            to: vec!["ops@example.org".to_string()],
        },
        alert_rules,
    }
}

fn some(text: &str) -> Option<String> {
    Some(text.to_string())
}

#[test]
fn accepts_every_metric_and_operator() {
    let metrics = [
        "clients_connected", "messages_sent", "messages_received", "bytes_sent",
        "bytes_received", "cpu_percent", "mem_usage_mb", "net_rx_bytes", "net_tx_bytes",
    ];
    for metric in metrics {
        for operator in [">", "<", "=="] {
            assert_eq!(rule(metric, operator, 1).validate(0), Ok(()));
        }
    }
}

#[test]
fn rejects_an_unknown_metric() {
    assert_eq!(
        rule("cpu", ">", 60).validate(3),
        Err("alert_rules[3]: unknown metric 'cpu' (valid metrics: clients_connected, \
             messages_sent, messages_received, bytes_sent, bytes_received, cpu_percent, \
             mem_usage_mb, net_rx_bytes, net_tx_bytes)"
            .to_string())
    );
}

#[test]
fn rejects_an_unknown_operator() {
    assert_eq!(
        rule("cpu_percent", ">=", 60).validate(12),
        Err("alert_rules[12]: invalid operator '>=' (valid operators: >, <, ==)".to_string())
    );
}

#[test]
fn rejects_a_zero_cooldown() {
    assert_eq!(
        rule("cpu_percent", ">", 0).validate(0),
        Err("alert_rules[0]: cooldown_secs must be greater than 0".to_string())
    );
}

#[test]
fn reports_the_metric_before_the_operator_and_the_cooldown() {
    let message = rule("x", "y", 0).validate(0).unwrap_err();
    assert!(message.starts_with("alert_rules[0]: unknown metric 'x'"));
}

#[test]
fn reports_the_first_bad_rule() {
    let rules = vec![rule("cpu_percent", ">", 60), rule("cpu_percent", "!", 60), rule("x", ">", 60)];
    assert_eq!(
        validate_rules(&rules),
        Err("alert_rules[1]: invalid operator '!' (valid operators: >, <, ==)".to_string())
    );
    assert_eq!(validate_rules(&vec![]), Ok(()));
}

#[test]
fn loads_a_valid_configuration() {
    let source = ConfigSource::Parsed(raw(vec![rule("cpu_percent", ">", 60)]));
    let config = Config::load("config.toml", source, some("user"), some("pass")).unwrap();
    assert_eq!(config.influxdb.url, "http://localhost:8086");
    assert_eq!(config.influxdb.bucket, "bucket");
    assert_eq!(config.intervals.influx_write_secs, 15);
    assert_eq!(config.brokers[0].id, "b1");
    assert_eq!(config.email.smtp_host, "smtp.example.org");
    assert_eq!(config.email.smtp_port, 587);
    assert_eq!(config.email.from, "agent@example.org");
    assert_eq!(config.email.to, vec!["ops@example.org".to_string()]);
    assert_eq!(config.email.username, "user");
    assert_eq!(config.email.password, "pass");
    assert_eq!(config.alert_rules, vec![rule("cpu_percent", ">", 60)]);
    let copy = config.email.clone();
    assert_eq!(copy.to, config.email.to);
    assert_eq!(copy.password, "pass");
}

#[test]
fn reports_an_unreadable_file() {
    let source = ConfigSource::Unreadable("No such file or directory (os error 2)".to_string());
    assert_eq!(
        Config::load("x.toml", source, None, None).unwrap_err(),
        "failed to read config file 'x.toml': No such file or directory (os error 2)"
    );
}

#[test]
fn reports_an_invalid_file() {
    let source = ConfigSource::Invalid("expected `=`".to_string());
    assert_eq!(
        Config::load("x.toml", source, None, None).unwrap_err(),
        "invalid config in 'x.toml': expected `=`"
    );
}

#[test]
fn reports_missing_credentials_before_bad_rules() {
    let bad = || ConfigSource::Parsed(raw(vec![rule("x", ">", 60)]));
    assert_eq!(
        Config::load("c", bad(), None, None).unwrap_err(),
        "missing env var SMTP_USERNAME"
    );
    assert_eq!(
        Config::load("c", bad(), None, some("pass")).unwrap_err(),
        "missing env var SMTP_USERNAME"
    );
    assert_eq!(
        Config::load("c", bad(), some("user"), None).unwrap_err(),
        "missing env var SMTP_PASSWORD"
    );
    assert!(Config::load("c", bad(), some("user"), some("pass"))
        .unwrap_err()
        .starts_with("alert_rules[0]: unknown metric 'x'"));
}
