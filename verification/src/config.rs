//! The agent's configuration and the validation of its alert rules.

use vstd::prelude::*;

use crate::ids::copied;
use crate::metric::{Metric, Operator, VALID_METRICS, VALID_OPERATORS};
#[allow(unused_imports)]
use crate::metric::{metric_named, operator_named};
use crate::text::decimal;
#[allow(unused_imports)]
use crate::text::decimal_text;
use crate::types::FloatBits;

verus! {

/// The configuration that the agent runs with.
#[derive(Debug)]
pub struct Config {
    pub influxdb: InfluxConfig,
    pub intervals: IntervalsConfig,
    pub brokers: Vec<BrokerConfig>,
    pub email: EmailConfig,
    pub alert_rules: Vec<AlertRule>,
}

/// Where the time series go.
#[derive(Debug)]
pub struct InfluxConfig {
    pub url: String,
    pub org: String,
    pub bucket: String,
    pub token: String,
}

/// How often the agent scrapes and writes, in seconds.
#[derive(Debug)]
pub struct IntervalsConfig {
    pub mqtt_scrape_secs: u64,
    pub docker_scrape_secs: u64,
    pub influx_write_secs: u64,
}

/// One monitored broker.
#[derive(Debug, PartialEq, Eq)]
pub struct BrokerConfig {
    pub id: String,
    pub mqtt_host: String,
    pub mqtt_port: u16,
    pub container_name: String,
}

/// What a [`BrokerConfig`] says.
pub struct BrokerConfigView {
    pub id: Seq<char>,
    pub mqtt_host: Seq<char>,
    pub mqtt_port: u16,
    pub container_name: Seq<char>,
}

impl View for BrokerConfig {
    type V = BrokerConfigView;

    open spec fn view(&self) -> BrokerConfigView {
        BrokerConfigView {
            id: self.id@,
            mqtt_host: self.mqtt_host@,
            mqtt_port: self.mqtt_port,
            container_name: self.container_name@,
        }
    }
}

impl Clone for BrokerConfig {
    fn clone(&self) -> (r: Self)
        ensures
            r == *self,
    {
        BrokerConfig {
            id: self.id.clone(),
            mqtt_host: self.mqtt_host.clone(),
            mqtt_port: self.mqtt_port,
            container_name: self.container_name.clone(),
        }
    }
}

/// A condition on a metric, and how long its alert stays quiet after going off.
#[derive(Debug, PartialEq, Eq)]
pub struct AlertRule {
    pub metric: String,
    pub operator: String,
    pub threshold: FloatBits,
    pub cooldown_secs: u64,
}

impl Clone for AlertRule {
    fn clone(&self) -> (r: Self)
        ensures
            r == *self,
    {
        AlertRule {
            metric: self.metric.clone(),
            operator: self.operator.clone(),
            threshold: self.threshold,
            cooldown_secs: self.cooldown_secs,
        }
    }
}

/// How alerts are mailed. The two credentials come from the environment and are
/// never written to disk.
#[derive(Debug)]
pub struct EmailConfig {
    pub smtp_host: String,
    pub smtp_port: u16,
    pub from: String,
    pub to: Vec<String>,
    pub username: String,
    pub password: String,
}

impl Clone for EmailConfig {
    fn clone(&self) -> (r: Self)
        ensures
            r.smtp_host == self.smtp_host,
            r.smtp_port == self.smtp_port,
            r.from == self.from,
            r.to@ == self.to@,
            r.username == self.username,
            r.password == self.password,
    {
        EmailConfig {
            smtp_host: self.smtp_host.clone(),
            smtp_port: self.smtp_port,
            from: self.from.clone(),
            to: copied(&self.to),
            username: self.username.clone(),
            password: self.password.clone(),
        }
    }
}

/// The part of [`EmailConfig`] that stands in the configuration file.
#[derive(Debug)]
pub struct EmailConfigRaw {
    pub smtp_host: String,
    pub smtp_port: u16,
    pub from: String,
    pub to: Vec<String>,
}

/// The contents of a configuration file.
#[derive(Debug)]
pub struct ConfigRaw {
    pub influxdb: InfluxConfig,
    pub intervals: IntervalsConfig,
    pub brokers: Vec<BrokerConfig>,
    pub email: EmailConfigRaw,
    pub alert_rules: Vec<AlertRule>,
}

/// What came of reading a configuration file.
#[derive(Debug)]
pub enum ConfigSource {
    /// The file could not be read, for the reason given.
    Unreadable(String),
    /// The file is no configuration, for the reason given.
    Invalid(String),
    /// The file's contents.
    Parsed(ConfigRaw),
}

/// The message for a rule on a metric that does not exist.
pub open spec fn unknown_metric_message(index: nat, metric: Seq<char>) -> Seq<char> {
    "alert_rules["@ + decimal_text(index) + "]: unknown metric '"@ + metric + "' (valid metrics: "@
        + VALID_METRICS@ + ")"@
}

/// The message for a rule with an operator that does not exist.
pub open spec fn invalid_operator_message(index: nat, operator: Seq<char>) -> Seq<char> {
    "alert_rules["@ + decimal_text(index) + "]: invalid operator '"@ + operator
        + "' (valid operators: "@ + VALID_OPERATORS@ + ")"@
}

/// The message for a rule whose alert would never stay quiet.
pub open spec fn zero_cooldown_message(index: nat) -> Seq<char> {
    "alert_rules["@ + decimal_text(index) + "]: cooldown_secs must be greater than 0"@
}

/// A rule that can be evaluated.
pub open spec fn valid_rule(rule: AlertRule) -> bool {
    &&& metric_named(rule.metric@) is Some
    &&& operator_named(rule.operator@) is Some
    &&& rule.cooldown_secs > 0
}

/// What is wrong with the rule at `index`: the first of metric, operator and
/// cooldown that is not in order.
pub open spec fn rule_error(rule: AlertRule, index: nat) -> Option<Seq<char>> {
    if metric_named(rule.metric@) is None {
        Some(unknown_metric_message(index, rule.metric@))
    } else if operator_named(rule.operator@) is None {
        Some(invalid_operator_message(index, rule.operator@))
    } else if rule.cooldown_secs == 0 {
        Some(zero_cooldown_message(index))
    } else {
        None
    }
}

/// What is wrong with the first invalid rule of `rules` from place `k` on.
pub open spec fn first_rule_error(rules: Seq<AlertRule>, k: nat) -> Option<Seq<char>>
    decreases rules.len() - k,
{
    if k >= rules.len() {
        None
    } else if rule_error(rules[k as int], k) is Some {
        rule_error(rules[k as int], k)
    } else {
        first_rule_error(rules, k + 1)
    }
}

/// The message for a file that could not be read.
pub open spec fn unreadable_message(path: Seq<char>, reason: Seq<char>) -> Seq<char> {
    "failed to read config file '"@ + path + "': "@ + reason
}

/// The message for a file that is no configuration.
pub open spec fn invalid_message(path: Seq<char>, reason: Seq<char>) -> Seq<char> {
    "invalid config in '"@ + path + "': "@ + reason
}

/// The message that refuses a configuration, or nothing where it is accepted.
pub open spec fn load_error(
    path: Seq<char>,
    source: ConfigSource,
    username: Option<String>,
    password: Option<String>,
) -> Option<Seq<char>> {
    match source {
        ConfigSource::Unreadable(reason) => Some(unreadable_message(path, reason@)),
        ConfigSource::Invalid(reason) => Some(invalid_message(path, reason@)),
        ConfigSource::Parsed(raw) => {
            if username is None {
                Some("missing env var SMTP_USERNAME"@)
            } else if password is None {
                Some("missing env var SMTP_PASSWORD"@)
            } else {
                first_rule_error(raw.alert_rules@, 0)
            }
        },
    }
}

impl AlertRule {
    /// Checks the rule that stands at `index` of its list.
    pub fn validate(&self, index: usize) -> (r: Result<(), String>)
        ensures
            match r {
                Ok(_) => rule_error(*self, index as nat) is None,
                Err(message) => rule_error(*self, index as nat) == Some(message@),
            },
            r is Ok == valid_rule(*self),
    {
        if Metric::parse(self.metric.as_str()).is_none() {
            let mut message = "alert_rules[".to_owned();
            let place = decimal(index as u64);
            message.append(place.as_str());
            message.append("]: unknown metric '");
            message.append(self.metric.as_str());
            message.append("' (valid metrics: ");
            message.append(VALID_METRICS);
            message.append(")");
            return Err(message);
        }
        if Operator::parse(self.operator.as_str()).is_none() {
            let mut message = "alert_rules[".to_owned();
            let place = decimal(index as u64);
            message.append(place.as_str());
            message.append("]: invalid operator '");
            message.append(self.operator.as_str());
            message.append("' (valid operators: ");
            message.append(VALID_OPERATORS);
            message.append(")");
            return Err(message);
        }
        if self.cooldown_secs == 0 {
            let mut message = "alert_rules[".to_owned();
            let place = decimal(index as u64);
            message.append(place.as_str());
            message.append("]: cooldown_secs must be greater than 0");
            return Err(message);
        }
        Ok(())
    }
}

proof fn lemma_no_error_means_valid(rules: Seq<AlertRule>, k: nat)
    ensures
        first_rule_error(rules, k) is None == (forall|i: int|
            k <= i < rules.len() ==> valid_rule(#[trigger] rules[i])),
    decreases rules.len() - k,
{
    if k < rules.len() {
        lemma_no_error_means_valid(rules, k + 1);
        assert(rule_error(rules[k as int], k) is None == valid_rule(rules[k as int]));
    }
}

/// Checks a list of rules; the first one that is not in order refuses the list.
pub fn validate_rules(rules: &Vec<AlertRule>) -> (r: Result<(), String>)
    ensures
        match r {
            Ok(_) => first_rule_error(rules@, 0) is None,
            Err(message) => first_rule_error(rules@, 0) == Some(message@),
        },
        r is Ok == (forall|i: int| 0 <= i < rules@.len() ==> valid_rule(#[trigger] rules@[i])),
{
    proof {
        lemma_no_error_means_valid(rules@, 0);
    }
    let n: usize = rules.len();
    let mut i: usize = 0;
    while i < n
        invariant
            n == rules@.len(),
            i <= n,
            first_rule_error(rules@, 0) == first_rule_error(rules@, i as nat),
            first_rule_error(rules@, 0) is None == (forall|k: int|
                0 <= k < rules@.len() ==> valid_rule(#[trigger] rules@[k])),
        decreases n - i,
    {
        match rules[i].validate(i) {
            Ok(_) => {},
            Err(message) => {
                return Err(message);
            },
        }
        i += 1;
    }
    Ok(())
}

impl Config {
    /// Puts a configuration together: the contents of the file at `path` and the
    /// mail credentials, where they are set. Only a configuration whose every
    /// alert rule is valid is accepted.
    pub fn load(
        path: &str,
        source: ConfigSource,
        username: Option<String>,
        password: Option<String>,
    ) -> (r: Result<Config, String>)
        ensures
            match r {
                Ok(config) => {
                    &&& load_error(path@, source, username, password) is None
                    &&& source is Parsed
                    &&& config.influxdb == source->Parsed_0.influxdb
                    &&& config.intervals == source->Parsed_0.intervals
                    &&& config.brokers == source->Parsed_0.brokers
                    &&& config.alert_rules == source->Parsed_0.alert_rules
                    &&& config.email.smtp_host == source->Parsed_0.email.smtp_host
                    &&& config.email.smtp_port == source->Parsed_0.email.smtp_port
                    &&& config.email.from == source->Parsed_0.email.from
                    &&& config.email.to == source->Parsed_0.email.to
                    &&& Some(config.email.username) == username
                    &&& Some(config.email.password) == password
                    &&& forall|i: int|
                        0 <= i < config.alert_rules@.len() ==> valid_rule(
                            #[trigger] config.alert_rules@[i],
                        )
                },
                Err(message) => load_error(path@, source, username, password) == Some(message@),
            },
    {
        let raw = match source {
            ConfigSource::Unreadable(reason) => {
                let mut message = "failed to read config file '".to_owned();
                message.append(path);
                message.append("': ");
                message.append(reason.as_str());
                return Err(message);
            },
            ConfigSource::Invalid(reason) => {
                let mut message = "invalid config in '".to_owned();
                message.append(path);
                message.append("': ");
                message.append(reason.as_str());
                return Err(message);
            },
            ConfigSource::Parsed(raw) => raw,
        };
        let username = match username {
            Some(name) => name,
            None => {
                return Err("missing env var SMTP_USERNAME".to_owned());
            },
        };
        let password = match password {
            Some(secret) => secret,
            None => {
                return Err("missing env var SMTP_PASSWORD".to_owned());
            },
        };
        match validate_rules(&raw.alert_rules) {
            Ok(_) => {},
            Err(message) => {
                return Err(message);
            },
        }
        Ok(
            Config {
                influxdb: raw.influxdb,
                intervals: raw.intervals,
                brokers: raw.brokers,
                email: EmailConfig {
                    smtp_host: raw.email.smtp_host,
                    smtp_port: raw.email.smtp_port,
                    from: raw.email.from,
                    to: raw.email.to,
                    username,
                    password,
                },
                alert_rules: raw.alert_rules,
            },
        )
    }
}

} // verus!
