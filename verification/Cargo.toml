[package]
name = "event_base"
version = "0.1.0"
edition = "2021"
publish = false

[dependencies]
uuid = { version = "1", features = ["v4"] }
ringbuf = "0.4"
bincode = "2"
serde = { version = "1", features = ["derive"] }
serde_json = "1"
tokio = { version = "1", features = ["full"] }
async-trait = "0.1"
futures = "0.3"
flume = "0.11"
chrono = "0.4"
sysinfo = "0.33"
thiserror = "2"
linkme = "0.3"
tracing = "0.1"
tracing-core = "0.1"
tracing-serde = "0.2"
tracing-subscriber = { version = "0.3", features = ["env-filter", "fmt"] }
