[package]
name = "milky_ob11_bridge"
version = "0.1.0"
edition = "2021"
publish = false

[dependencies]
lru = "*"
serde = { version = "1", features = ["derive"] }
serde_json = "1"
thiserror = "2"
tokio = { version = "1", features = ["full"] }
axum = { version = "0.8", features = ["ws"] }
tokio-tungstenite = "*"
futures-util = "0.3"
http = "1"
async-trait = "0.1"
tracing = "0.1"
tracing-subscriber = { version = "0.3", features = ["env-filter"] }
milky-rust-sdk = "*"
