[package]
name = "progressbox_agent"
version = "0.1.0"
edition = "2021"
publish = false

[dependencies]
axum = "0.7"
bollard = "0.17"
chrono = "0.4"
dashmap = "5.5"
futures = "0.3"
futures-util = "0.3"
hostname = "0.4"
influxdb2 = "0.5"
influxdb2-derive = "0.1"
lettre = { version = "0.11", default-features = false, features = ["builder", "smtp-transport", "rustls-tls"] }
rumqttc = { version = "0.24", default-features = false }
serde = { version = "1", features = ["derive"] }
serde_json = "1"
tokio = { version = "1", features = ["full"] }
toml = "0.8"
