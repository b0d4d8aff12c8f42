//! The metrics that an alert rule can watch and the comparisons that it can
//! make. Rule validation and rule evaluation both read from here.

use vstd::prelude::*;

use crate::text::same_text;
use crate::types::{BrokerMetrics, Reading};

verus! {

/// A numeric figure of [`BrokerMetrics`].
#[derive(Clone, Copy, Debug, PartialEq, Eq, Structural)]
pub enum Metric {
    ClientsConnected,
    MessagesSent,
    MessagesReceived,
    BytesSent,
    BytesReceived,
    CpuPercent,
    MemUsageMb,
    NetRxBytes,
    NetTxBytes,
}

/// The comparison of a rule's condition.
#[derive(Clone, Copy, Debug, PartialEq, Eq, Structural)]
pub enum Operator {
    Greater,
    Less,
    Equal,
}

/// How a reading stands to a threshold, as floating-point numbers.
#[derive(Clone, Copy, Debug, PartialEq, Eq, Structural)]
pub struct Comparison {
    /// The reading is greater than the threshold.
    pub above: bool,
    /// The reading is less than the threshold.
    pub below: bool,
    /// The reading is within the machine epsilon of the threshold.
    pub near: bool,
}

/// The names of the metrics, as they stand in an error message.
pub const VALID_METRICS: &'static str =
    "clients_connected, messages_sent, messages_received, bytes_sent, bytes_received, cpu_percent, mem_usage_mb, net_rx_bytes, net_tx_bytes";

/// The operators, as they stand in an error message.
pub const VALID_OPERATORS: &'static str = ">, <, ==";

/// The metric that a rule names.
pub open spec fn metric_named(name: Seq<char>) -> Option<Metric> {
    if name == "clients_connected"@ {
        Some(Metric::ClientsConnected)
    } else if name == "messages_sent"@ {
        Some(Metric::MessagesSent)
    } else if name == "messages_received"@ {
        Some(Metric::MessagesReceived)
    } else if name == "bytes_sent"@ {
        Some(Metric::BytesSent)
    } else if name == "bytes_received"@ {
        Some(Metric::BytesReceived)
    } else if name == "cpu_percent"@ {
        Some(Metric::CpuPercent)
    } else if name == "mem_usage_mb"@ {
        Some(Metric::MemUsageMb)
    } else if name == "net_rx_bytes"@ {
        Some(Metric::NetRxBytes)
    } else if name == "net_tx_bytes"@ {
        Some(Metric::NetTxBytes)
    } else {
        None
    }
}

/// The operator that a rule names.
pub open spec fn operator_named(name: Seq<char>) -> Option<Operator> {
    if name == ">"@ {
        Some(Operator::Greater)
    } else if name == "<"@ {
        Some(Operator::Less)
    } else if name == "=="@ {
        Some(Operator::Equal)
    } else {
        None
    }
}

/// The counter `count` as a reading.
pub open spec fn counted(count: Option<u64>) -> Option<Reading> {
    match count {
        Some(n) => Some(Reading::Count(n)),
        None => None,
    }
}

/// The figure of `metrics` that `metric` stands for, absent where no scrape has
/// brought it yet.
pub open spec fn figure(metrics: BrokerMetrics, metric: Metric) -> Option<Reading> {
    match metric {
        Metric::ClientsConnected => counted(metrics.clients_connected),
        Metric::MessagesSent => counted(metrics.messages_sent),
        Metric::MessagesReceived => counted(metrics.messages_received),
        Metric::BytesSent => counted(metrics.bytes_sent),
        Metric::BytesReceived => counted(metrics.bytes_received),
        Metric::CpuPercent => match metrics.cpu_percent {
            Some(f) => Some(Reading::Float(f)),
            None => None,
        },
        Metric::MemUsageMb => match metrics.mem_usage_mb {
            Some(f) => Some(Reading::Float(f)),
            None => None,
        },
        Metric::NetRxBytes => counted(metrics.net_rx_bytes),
        Metric::NetTxBytes => counted(metrics.net_tx_bytes),
    }
}

/// The reading of `metrics` that goes by `name`: none for a name that is no
/// metric's.
pub open spec fn reading_named(metrics: BrokerMetrics, name: Seq<char>) -> Option<Reading> {
    match metric_named(name) {
        Some(metric) => figure(metrics, metric),
        None => None,
    }
}

/// Whether a condition with the operator `name` holds: never for a name that is
/// no operator's.
pub open spec fn condition_holds(name: Seq<char>, comparison: Comparison) -> bool {
    match operator_named(name) {
        Some(Operator::Greater) => comparison.above,
        Some(Operator::Less) => comparison.below,
        Some(Operator::Equal) => comparison.near,
        None => false,
    }
}

impl Metric {
    /// Looks a metric up by its name.
    pub fn parse(name: &str) -> (r: Option<Metric>)
        ensures
            r == metric_named(name@),
    {
        if same_text(name, "clients_connected") {
            Some(Metric::ClientsConnected)
        } else if same_text(name, "messages_sent") {
            Some(Metric::MessagesSent)
        } else if same_text(name, "messages_received") {
            Some(Metric::MessagesReceived)
        } else if same_text(name, "bytes_sent") {
            Some(Metric::BytesSent)
        } else if same_text(name, "bytes_received") {
            Some(Metric::BytesReceived)
        } else if same_text(name, "cpu_percent") {
            Some(Metric::CpuPercent)
        } else if same_text(name, "mem_usage_mb") {
            Some(Metric::MemUsageMb)
        } else if same_text(name, "net_rx_bytes") {
            Some(Metric::NetRxBytes)
        } else if same_text(name, "net_tx_bytes") {
            Some(Metric::NetTxBytes)
        } else {
            None
        }
    }

    /// Reads this metric off a broker's figures.
    pub fn read(&self, metrics: &BrokerMetrics) -> (r: Option<Reading>)
        ensures
            r == figure(*metrics, *self),
    {
        let count = match self {
            Metric::ClientsConnected => metrics.clients_connected,
            Metric::MessagesSent => metrics.messages_sent,
            Metric::MessagesReceived => metrics.messages_received,
            Metric::BytesSent => metrics.bytes_sent,
            Metric::BytesReceived => metrics.bytes_received,
            Metric::NetRxBytes => metrics.net_rx_bytes,
            Metric::NetTxBytes => metrics.net_tx_bytes,
            Metric::CpuPercent => {
                return match metrics.cpu_percent {
                    Some(f) => Some(Reading::Float(f)),
                    None => None,
                };
            },
            Metric::MemUsageMb => {
                return match metrics.mem_usage_mb {
                    Some(f) => Some(Reading::Float(f)),
                    None => None,
                };
            },
        };
        match count {
            Some(n) => Some(Reading::Count(n)),
            None => None,
        }
    }
}

impl Operator {
    /// Looks an operator up by its sign.
    pub fn parse(name: &str) -> (r: Option<Operator>)
        ensures
            r == operator_named(name@),
    {
        if same_text(name, ">") {
            Some(Operator::Greater)
        } else if same_text(name, "<") {
            Some(Operator::Less)
        } else if same_text(name, "==") {
            Some(Operator::Equal)
        } else {
            None
        }
    }
}

/// Reads the metric called `name` off a broker's figures.
pub fn metric_value(metrics: &BrokerMetrics, name: &str) -> (r: Option<Reading>)
    ensures
        r == reading_named(*metrics, name@),
{
    match Metric::parse(name) {
        Some(metric) => metric.read(metrics),
        None => None,
    }
}

/// Says whether a condition with the operator called `name` is met.
pub fn breached(name: &str, comparison: &Comparison) -> (r: bool)
    ensures
        r == condition_holds(name@, *comparison),
{
    match Operator::parse(name) {
        Some(Operator::Greater) => comparison.above,
        Some(Operator::Less) => comparison.below,
        Some(Operator::Equal) => comparison.near,
        None => false,
    }
}

/// No metric has a colon in its name.
pub proof fn metric_names_have_no_colon(name: Seq<char>)
    requires
        metric_named(name) is Some,
    ensures
        forall|i: int| 0 <= i < name.len() ==> #[trigger] name[i] != ':',
{
    reveal_strlit("clients_connected");
    reveal_strlit("messages_sent");
    reveal_strlit("messages_received");
    reveal_strlit("bytes_sent");
    reveal_strlit("bytes_received");
    reveal_strlit("cpu_percent");
    reveal_strlit("mem_usage_mb");
    reveal_strlit("net_rx_bytes");
    reveal_strlit("net_tx_bytes");
}

/// Every metric goes by exactly one name: two names of one metric are the same.
pub proof fn metric_names_are_distinct(a: Seq<char>, b: Seq<char>)
    requires
        metric_named(a) is Some,
        metric_named(a) == metric_named(b),
    ensures
        a == b,
{
}

/// Every metric can be watched: it has a name by which a rule refers to it.
pub proof fn every_metric_has_a_name(metric: Metric) -> (name: Seq<char>)
    ensures
        metric_named(name) == Some(metric),
{
    reveal_strlit("clients_connected");
    reveal_strlit("messages_sent");
    reveal_strlit("messages_received");
    reveal_strlit("bytes_sent");
    reveal_strlit("bytes_received");
    reveal_strlit("cpu_percent");
    reveal_strlit("mem_usage_mb");
    reveal_strlit("net_rx_bytes");
    reveal_strlit("net_tx_bytes");
    assert("clients_connected"@.len() == 17 && "messages_received"@.len() == 17);
    assert("messages_sent"@.len() == 13 && "bytes_sent"@.len() == 10);
    assert("bytes_received"@.len() == 14 && "cpu_percent"@.len() == 11);
    assert("mem_usage_mb"@.len() == 12 && "net_rx_bytes"@.len() == 12 && "net_tx_bytes"@.len() == 12);
    assert("clients_connected"@[0] != "messages_received"@[0]);
    assert("mem_usage_mb"@[0] != "net_rx_bytes"@[0]);
    assert("mem_usage_mb"@[0] != "net_tx_bytes"@[0]);
    assert("net_rx_bytes"@[4] != "net_tx_bytes"@[4]);
    match metric {
        Metric::ClientsConnected => "clients_connected"@,
        Metric::MessagesSent => "messages_sent"@,
        Metric::MessagesReceived => "messages_received"@,
        Metric::BytesSent => "bytes_sent"@,
        Metric::BytesReceived => "bytes_received"@,
        Metric::CpuPercent => "cpu_percent"@,
        Metric::MemUsageMb => "mem_usage_mb"@,
        Metric::NetRxBytes => "net_rx_bytes"@,
        Metric::NetTxBytes => "net_tx_bytes"@,
    }
}

} // verus!
