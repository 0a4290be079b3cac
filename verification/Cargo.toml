[package]
name = "carry"
version = "0.1.0"
edition = "2021"
publish = false

[dependencies]
rust_decimal = { version = "=1.43.0", features = ["serde-with-str"] }
serde = { version = "=1.0.229", features = ["derive"] }
serde_json = { version = "=1.0.154", features = ["raw_value"] }
thiserror = "=1.0.69"
tokio = { version = "=1.54.1", features = ["full"] }
tokio-tungstenite = "=0.30.0"
futures-util = "=0.3.34"
rand = "=0.8.8"
anyhow = "=1.0.104"
tokio-util = "=0.7.20"
tracing = "=0.1.44"
tracing-subscriber = { version = "=0.3.23", features = ["env-filter", "fmt"] }
