[package]
name = "ical_merger"
version = "0.1.0"
edition = "2021"
publish = false

[dependencies]
elikoga-ical-rs = "=0.2.4"
dashmap = "=5.5.3"
eyre = "=0.6.14"
reqwest = { version = "=0.11.27", default-features = false, features = ["rustls-tls"] }
rocket = "=0.5.2"
serde = { version = "=1.0.229", features = ["derive"] }
serde_json = "=1.0.154"
serde_yaml = "=0.9.34"
tokio = { version = "=1.54.1", features = ["rt-multi-thread", "macros", "time", "sync"] }
