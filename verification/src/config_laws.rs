//! What holds of the configuration: which rules are valid, and which error is reported.

#[allow(unused_imports)]
use vstd::prelude::*;

#[allow(unused_imports)]
use crate::config::{
    first_rule_error, load_error, rule_error, valid_rule, AlertRule, BrokerConfig, ConfigSource,
};
#[allow(unused_imports)]
use crate::metric::{VALID_METRICS, VALID_OPERATORS};
#[allow(unused_imports)]
use crate::text::decimal_text;

verus! {

/// The metrics that a rule can watch.
pub open spec fn can_be_watched(name: Seq<char>) -> bool {
    ||| name == "clients_connected"@
    ||| name == "messages_sent"@
    ||| name == "messages_received"@
    ||| name == "bytes_sent"@
    ||| name == "bytes_received"@
    ||| name == "cpu_percent"@
    ||| name == "mem_usage_mb"@
    ||| name == "net_rx_bytes"@
    ||| name == "net_tx_bytes"@
}

/// The operators that a rule can have.
pub open spec fn can_compare(name: Seq<char>) -> bool {
    name == ">"@ || name == "<"@ || name == "=="@
}

/// A rule is valid exactly when its metric can be watched, its operator can compare and
/// it has a cooldown.
pub proof fn valid_rules_are_those_that_can_fire(rule: AlertRule)
    ensures
        valid_rule(rule) == (can_be_watched(rule.metric@) && can_compare(rule.operator@)
            && rule.cooldown_secs > 0),
{
}

/// What is reported of a rule: its metric before its operator before its cooldown, with
/// its place in the list and the word that is wrong.
pub proof fn rule_error_names_the_first_fault(rule: AlertRule, index: nat)
    ensures
        ({
            let place = "alert_rules["@ + decimal_text(index);
            &&& !can_be_watched(rule.metric@) ==> rule_error(rule, index) == Some(
                place + "]: unknown metric '"@ + rule.metric@ + "' (valid metrics: "@
                    + VALID_METRICS@ + ")"@,
            )
            &&& can_be_watched(rule.metric@) && !can_compare(rule.operator@) ==> rule_error(
                rule,
                index,
            ) == Some(
                place + "]: invalid operator '"@ + rule.operator@ + "' (valid operators: "@
                    + VALID_OPERATORS@ + ")"@,
            )
            &&& can_be_watched(rule.metric@) && can_compare(rule.operator@) && rule.cooldown_secs
                == 0 ==> rule_error(rule, index) == Some(
                place + "]: cooldown_secs must be greater than 0"@,
            )
            &&& can_be_watched(rule.metric@) && can_compare(rule.operator@) && rule.cooldown_secs
                > 0 ==> rule_error(rule, index) is None
        }),
{
}

/// What is reported of a list of rules is the error of the first one that is not valid;
/// a list of valid rules has none.
pub proof fn first_invalid_rule_is_reported(rules: Seq<AlertRule>, from: nat) -> (at: int)
    requires
        from <= rules.len(),
    ensures
        if forall|i: int| from <= i < rules.len() ==> valid_rule(#[trigger] rules[i]) {
            first_rule_error(rules, from) is None
        } else {
            &&& from <= at < rules.len()
            &&& !valid_rule(rules[at])
            &&& forall|i: int| from <= i < at ==> valid_rule(#[trigger] rules[i])
            &&& first_rule_error(rules, from) == rule_error(rules[at], at as nat)
            &&& first_rule_error(rules, from) is Some
        },
    decreases rules.len() - from,
{
    if from == rules.len() {
        0
    } else {
        valid_rules_are_those_that_can_fire(rules[from as int]);
        rule_error_names_the_first_fault(rules[from as int], from);
        if valid_rule(rules[from as int]) {
            first_invalid_rule_is_reported(rules, from + 1)
        } else {
            from as int
        }
    }
}

/// What keeps a configuration from being loaded: a file that cannot be read or is not
/// valid, with the reason, before a missing user name, before a missing password, before
/// a rule that is not valid. Where none of these is so, nothing does.
pub proof fn loading_fails_for_the_first_reason(
    path: Seq<char>,
    source: ConfigSource,
    username: Option<String>,
    password: Option<String>,
)
    ensures
        ({
            let error = load_error(path, source, username, password);
            match source {
                ConfigSource::Unreadable(reason) => error == Some(
                    "failed to read config file '"@ + path + "': "@ + reason@,
                ),
                ConfigSource::Invalid(reason) => error == Some(
                    "invalid config in '"@ + path + "': "@ + reason@,
                ),
                ConfigSource::Parsed(raw) => {
                    &&& username is None ==> error == Some("missing env var SMTP_USERNAME"@)
                    &&& username is Some && password is None ==> error == Some(
                        "missing env var SMTP_PASSWORD"@,
                    )
                    &&& username is Some && password is Some ==> (error is None <==> forall|i: int|
                        0 <= i < raw.alert_rules@.len() ==> valid_rule(
                            #[trigger] raw.alert_rules@[i],
                        ))
                    &&& username is Some && password is Some && error is Some ==> exists|i: int|
                        {
                            &&& 0 <= i < raw.alert_rules@.len()
                            &&& !valid_rule(#[trigger] raw.alert_rules@[i])
                            &&& error == rule_error(raw.alert_rules@[i], i as nat)
                            &&& forall|j: int|
                                0 <= j < i ==> valid_rule(#[trigger] raw.alert_rules@[j])
                        }
                },
            }
        }),
{
    if let ConfigSource::Parsed(raw) = source {
        let at = first_invalid_rule_is_reported(raw.alert_rules@, 0);
        if exists|i: int|
            0 <= i < raw.alert_rules@.len() && !valid_rule(#[trigger] raw.alert_rules@[i]) {
            assert(!valid_rule(raw.alert_rules@[at]));
        }
    }
}

/// A broker is told by its four parts.
pub proof fn broker_is_its_four_parts(broker: BrokerConfig)
    ensures
        broker@.id == broker.id@,
        broker@.mqtt_host == broker.mqtt_host@,
        broker@.mqtt_port == broker.mqtt_port,
        broker@.container_name == broker.container_name@,
{
}

} // verus!
