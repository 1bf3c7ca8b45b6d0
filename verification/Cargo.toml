[package]
name = "ip_allowlist"
version = "0.1.0"
edition = "2021"
publish = false

[dependencies]
ipnet = "2"
metrics = "0.24"
serde_json = "1"
tokio = { version = "1", features = ["rt"] }
tracing = "0.1"
