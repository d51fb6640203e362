[package]
name = "fusion_executor"
version = "0.1.0"
edition = "2021"
publish = false

[dependencies]
accessibility = "*"
accessibility-sys = "*"
anyhow = "1"
base64 = "0.22"
core-foundation = "*"
core-graphics = { version = "0.24", default-features = false }
fs2 = "*"
futures = "0.3"
metrics = "*"
metrics-exporter-prometheus = { version = "*", default-features = false }
nix = { version = "*", features = ["user", "socket"] }
png = "*"
pyo3 = { version = "*", features = ["abi3-py39"] }
regex = "1"
serde = { version = "1", features = ["derive"] }
serde_json = "1"
sysinfo = "*"
thiserror = "*"
tokio = { version = "1", features = ["full"] }
tracing = "0.1"
tracing-appender = "0.2"
tracing-subscriber = { version = "0.3", features = ["env-filter", "json"] }
uuid = { version = "1", features = ["v4"] }
