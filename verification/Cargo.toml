[package]
name = "sipr"
version = "0.3.0"
edition = "2021"
publish = false

[dependencies]
audiopus = "0.2"
chrono = "0.4"
clap = { version = "4", features = ["derive"] }
cpal = "0.15"
crossterm = "0.28"
dirs = "5"
hickory-resolver = "0.24"
rand = "0.8"
serde = { version = "1", features = ["derive"] }
serde_json = "1"
thiserror = "1"
tokio = { version = "1", features = ["full"] }
tracing = "0.1"
tracing-subscriber = { version = "0.3", features = ["env-filter"] }
uuid = { version = "1", features = ["v4"] }
