[package]
name = "shytti"
version = "0.1.0"
edition = "2021"
publish = false

[dependencies]
axum = "0.8"
futures-util = "0.3"
serde = { version = "1", features = ["derive"] }
serde_json = "1"
tokio = { version = "1", features = ["full"] }
tokio-tungstenite = "0.26"
toml = "0.8"
tracing = "0.1"
tracing-subscriber = "0.3"
