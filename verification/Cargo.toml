[package]
name = "onlyfansd"
version = "0.1.0"
edition = "2021"
publish = false

[dependencies]
futures = "0.3"
futures-util = { version = "0.3", features = ["sink"] }
reqwest = { version = "0.11", default-features = false, features = ["json", "rustls-tls"] }
serde = { version = "1", features = ["derive"] }
serde_json = "1"
serde_yaml = "0.9"
spidev = "0.6"
tokio = { version = "1", features = ["full"] }
tokio-tungstenite = "0.21"
tracing = "0.1"
tracing-subscriber = { version = "0.3", features = ["env-filter"] }
