[package]
name = "unicos"
version = "0.1.0"
edition = "2021"
publish = false

[dependencies]
async-trait = "=0.1.92"
chrono = { version = "=0.4.45", features = ["serde"] }
notify = "=6.1.1"
nu-ansi-term = "=0.50.3"
reedline = { version = "=0.41.0", features = ["external_printer"] }
reqwest = { version = "=0.12.28", default-features = false, features = ["json", "rustls-tls"] }
serde = { version = "=1.0.229", features = ["derive"] }
serde_json = { version = "=1.0.154", features = ["float_roundtrip"] }
thiserror = "=2.0.21"
tokio = { version = "=1.54.1", features = ["full"] }
tokio-util = "=0.7.20"
toml = "=0.8.23"
tracing = "=0.1.44"
tracing-subscriber = { version = "=0.3.23", features = ["env-filter"] }
uuid = { version = "=1.29.0", features = ["v7", "serde"] }
