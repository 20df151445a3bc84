[package]
name = "ledshow"
version = "0.1.0"
edition = "2021"
publish = false

[dependencies]
rand = "0.9"
uuid = { version = "1", features = ["v4"] }
rosc = "0.10"
tokio = { version = "1", features = ["full"] }
axum = "0.7"
serde = { version = "1", features = ["derive"] }
serde_json = "1"
toml = "0.8"
tokio-tungstenite = "0.24"
futures-util = "0.3"
chrono = "0.4"
reqwest = { version = "0.12", default-features = false, features = ["json"] }
tokio-stream = "0.1"
