[package]
name = "snowblog"
version = "0.1.0"
edition = "2021"
publish = false

[dependencies]
anyhow = "=1.0.104"
axum = "=0.8.9"
blake3 = { version = "=1.8.7", default-features = false, features = ["std", "pure"] }
bytes = "=1.12.1"
clap = { version = "=4.6.7", features = ["derive", "env"] }
constant_time_eq = "=0.4.2"
jiff = { version = "=0.2.39", features = ["serde"] }
metrics = "=0.24.6"
metrics-exporter-prometheus = { version = "=0.18.3", default-features = false }
oxilangtag = "=0.1.6"
serde = { version = "=1.0.229", features = ["derive"] }
serde_json = "=1.0.154"
sqlx = { version = "=0.8.6", default-features = false, features = ["sqlite", "runtime-tokio", "migrate", "macros"] }
thiserror = "=2.0.21"
tokio = { version = "=1.54.1", features = ["full"] }
tracing = "=0.1.44"
tracing-subscriber = { version = "=0.3.23", features = ["env-filter"] }
typst-syntax = "=0.15.1"
uuid = { version = "=1.29.0", features = ["v7"] }
