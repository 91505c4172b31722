[package]
name = "shield_proxy"
version = "0.1.0"
edition = "2021"
publish = false

[dependencies]
regex = "*"
axum = "*"
tokio = { version = "*", features = ["rt-multi-thread", "macros", "net", "time"] }
reqwest = { version = "*", default-features = false, features = ["stream"] }
serde = { version = "*", features = ["derive"] }
serde_json = "*"
serde_yaml = "*"
tracing = "*"
tracing-subscriber = { version = "*", features = ["env-filter", "fmt", "json"] }
hyper = "*"
http-body-util = "*"
metrics = "*"
metrics-exporter-prometheus = "*"
thiserror = "*"
