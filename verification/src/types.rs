//! The figures kept of each broker, and the records made of them.

use vstd::prelude::*;

verus! {

/// A 64-bit floating-point number, carried by its IEEE 754 bit pattern. The
/// library stores and hands such numbers on; it does no arithmetic on them.
#[derive(Clone, Copy, Debug, PartialEq, Eq, Structural)]
pub struct FloatBits {
    pub bits: u64,
}

/// A figure as it is read off a broker's metrics.
#[derive(Clone, Copy, Debug, PartialEq, Eq, Structural)]
pub enum Reading {
    /// A counter.
    Count(u64),
    /// A measured quantity.
    Float(FloatBits),
}

/// A figure, or `otherwise` where it is missing.
pub open spec fn known_or(figure: Option<u64>, otherwise: u64) -> u64 {
    match figure {
        Some(value) => value,
        None => otherwise,
    }
}

/// A 64-bit count as a signed number of the same bits: a count of 2^63 or more
/// wraps round to a negative number.
pub open spec fn signed_count(count: u64) -> int {
    if count <= i64::MAX {
        count as int
    } else {
        count - 0x1_0000_0000_0000_0000
    }
}

/// Casts a 64-bit count to a signed number.
pub fn to_signed(count: u64) -> (r: i64)
    ensures
        r == signed_count(count),
{
    let r: i64 = #[verifier::truncate] (count as i64);
    assert(count <= 0x7fff_ffff_ffff_ffff ==> (count as i64) == count) by (bit_vector);
    assert(count > 0x7fff_ffff_ffff_ffff ==> (count as i64) == count - 0x1_0000_0000_0000_0000)
        by (bit_vector);
    r
}

/// The latest figures of one broker. A figure that no scrape has brought yet
/// is absent.
#[derive(Clone, Copy, Debug, PartialEq, Eq)]
pub struct BrokerMetrics {
    pub clients_connected: Option<u64>,
    pub messages_sent: Option<u64>,
    pub messages_received: Option<u64>,
    pub bytes_sent: Option<u64>,
    pub bytes_received: Option<u64>,
    pub cpu_percent: Option<FloatBits>,
    pub mem_usage_mb: Option<FloatBits>,
    pub net_rx_bytes: Option<u64>,
    pub net_tx_bytes: Option<u64>,
    /// Unix time, in seconds, of the last update.
    pub last_updated_secs: Option<i64>,
    pub mqtt_online: bool,
    pub docker_online: bool,
}

impl BrokerMetrics {
    /// The metrics of a broker of which nothing is known yet.
    pub open spec fn unknown() -> BrokerMetrics {
        BrokerMetrics {
            clients_connected: None,
            messages_sent: None,
            messages_received: None,
            bytes_sent: None,
            bytes_received: None,
            cpu_percent: None,
            mem_usage_mb: None,
            net_rx_bytes: None,
            net_tx_bytes: None,
            last_updated_secs: None,
            mqtt_online: false,
            docker_online: false,
        }
    }
}

impl Default for BrokerMetrics {
    fn default() -> (r: Self)
        ensures
            r == BrokerMetrics::unknown(),
    {
        BrokerMetrics {
            clients_connected: None,
            messages_sent: None,
            messages_received: None,
            bytes_sent: None,
            bytes_received: None,
            cpu_percent: None,
            mem_usage_mb: None,
            net_rx_bytes: None,
            net_tx_bytes: None,
            last_updated_secs: None,
            mqtt_online: false,
            docker_online: false,
        }
    }
}

/// One broker's figures as a point of the time series `broker_metrics`.
#[derive(Debug, PartialEq, Eq)]
pub struct BrokerMetricsPoint {
    pub broker_id: String,
    pub host: String,
    pub clients_connected: i64,
    pub messages_sent: i64,
    pub messages_received: i64,
    pub bytes_sent: i64,
    pub bytes_received: i64,
    pub cpu_percent: FloatBits,
    pub mem_usage_mb: FloatBits,
    /// Unix time in nanoseconds.
    pub time: i64,
}

/// The record of an alert that went off.
#[derive(Debug, PartialEq, Eq)]
pub struct FiredAlert {
    pub id: u64,
    pub broker_id: String,
    pub metric: String,
    pub operator: String,
    pub value: Reading,
    pub threshold: FloatBits,
    /// Unix time in seconds.
    pub fired_at: i64,
    pub acknowledged: bool,
}

impl Clone for FiredAlert {
    fn clone(&self) -> (r: Self)
        ensures
            r == *self,
    {
        FiredAlert {
            id: self.id,
            broker_id: self.broker_id.clone(),
            metric: self.metric.clone(),
            operator: self.operator.clone(),
            value: self.value,
            threshold: self.threshold,
            fired_at: self.fired_at,
            acknowledged: self.acknowledged,
        }
    }
}

} // verus!
