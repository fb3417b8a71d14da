[package]
name = "polymarket_ws"
version = "0.1.0"
edition = "2021"
publish = false

[dependencies]
serde_json = { version = "1", features = ["raw_value"] }
futures-util = { version = "0.3", features = ["sink"] }
tokio = { version = "1", features = ["time", "net", "rt-multi-thread", "macros"] }
tokio-tungstenite = { version = "0.24", features = ["native-tls"] }
