//! An agent that watches MQTT brokers and the containers they run in.
//!
//! The library holds what the agent knows and decides: the registry of brokers and
//! their metrics ([`registry`], [`store`]), the discovery of labelled containers
//! ([`discovery`]), what MQTT messages and container statistics do to the metrics
//! ([`mqtt`], [`docker`]), when an alert goes off and the mail that tells of it
//! ([`alerts`], [`email`]), the points of the time series ([`influx`]), the answers
//! to HTTP requests ([`http`]) and the configuration ([`config`]).
//!
//! It reads the clock and the name of the machine, and does no other input or output. A
//! caller performs what the library asks for and hands back what came of it.
//! Floating-point figures pass through as bit patterns: the caller computes, formats
//! and compares them.

pub mod alert_laws;
pub mod alerts;
pub mod answer_laws;
pub mod clock;
pub mod config;
pub mod config_laws;
pub mod discovery;
pub mod discovery_laws;
pub mod docker;
pub mod email;
pub mod fleet_laws;
pub mod http;
pub mod ids;
pub mod influx;
pub mod mail_laws;
pub mod metric;
pub mod metrics_laws;
pub mod mqtt;
pub mod order;
pub mod reading;
pub mod registry;
pub mod store;
pub mod text;
pub mod text_laws;
pub mod types;
