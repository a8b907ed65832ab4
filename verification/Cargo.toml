[package]
name = "nameful_api"
version = "0.1.0"
edition = "2021"
publish = false

[dependencies]
api_key = "=0.1.0"
axum = "=0.8.9"
axum-client-ip = "=1.3.1"
base64 = "=0.22.1"
chrono = "=0.4.45"
clokwerk = "=0.4.0"
image = { version = "=0.25.10", default-features = false, features = ["png"] }
json_value_remove = "=1.1.0"
maxminddb = "=0.32.0"
rand = "=0.9.5"
reqwest = "=0.12.28"
serde = { version = "=1.0.229", features = ["derive"] }
serde_json = "=1.0.154"
tokio = { version = "=1.54.1", features = ["full"] }
tokio-util = { version = "=0.7.20", features = ["io"] }
toml = "=1.1.8"
xdg = "=3.0.0"
