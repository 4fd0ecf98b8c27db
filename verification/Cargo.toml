[package]
name = "casper-node-proxy"
version = "0.1.0"
edition = "2021"
publish = false

[dependencies]
axum = { version = "0.8", features = ["ws"] }
casper-binary-port = "=1.1.1"
casper-client = "=5.0.0"
casper-types = "=6.1.0"
clap = { version = "4", features = ["derive"] }
diesel = { version = "2", features = ["sqlite", "postgres", "r2d2"] }
diesel_migrations = "2"
futures-util = "0.3"
governor = "=0.10.4"
prometheus = "=0.14.0"
redis = { version = "=1.8.1", features = ["tokio-comp"] }
reqwest = { version = "0.12", features = ["json"] }
serde = { version = "1", features = ["derive"] }
serde_json = { version = "=1.0.154", features = ["preserve_order"] }
tokio = { version = "1", features = ["full"] }
tokio-util = "0.7"
tower_governor = "=0.8.0"
tracing = "0.1"
tracing-subscriber = { version = "0.3", features = ["env-filter"] }
veles-casper-rust-sdk = "=0.4.0"
