[package]
name = "kanban-orchestrator"
version = "0.1.0"
edition = "2021"
publish = false

[dependencies]
uuid = { version = "=1.29.0", features = ["v4", "serde"] }
serde = { version = "=1.0.229", features = ["derive"] }
serde_json = "=1.0.154"
serde_yaml = "=0.9.34"
humantime-serde = "=1.1.1"
sqlx = { version = "=0.8.6", default-features = false, features = ["sqlite", "runtime-tokio", "chrono", "uuid"] }
tokio = { version = "=1.54.1", features = ["full"] }
reqwest = { version = "=0.12.28", default-features = false, features = ["json", "rustls-tls"] }
chrono = { version = "=0.4.45", features = ["serde"] }
thiserror = "=2.0.21"
anyhow = "=1.0.104"
async-trait = "=0.1.92"
tracing = "=0.1.44"
futures = "=0.3.34"
tokio-util = { version = "=0.7.20", features = ["io"] }
strum_macros = "=0.27.2"
strip-ansi-escapes = "0.2"
