[package]
name = "agent_framework"
version = "0.1.0"
edition = "2021"
publish = false

[dependencies]
serde = { version = "1", features = ["derive"] }
serde_json = "1"
base64 = "0.22"
hmac = "0.12"
sha2 = "0.10"
uuid = { version = "1", features = ["v4"] }
zeroize = "1"
reqwest = { version = "0.12", default-features = false, features = ["json", "stream", "rustls-tls"] }
reqwest-eventsource = "0.6"
tokio = { version = "1", features = ["full"] }
tokio-stream = "0.1"
futures = "0.3"
async-trait = "0.1"
async-stream = "0.3"
axum = "0.8"
tower-http = { version = "0.6", features = ["cors"] }
thiserror = "2"
tracing = "0.1"
a2a-rs-core = "1.0.17"
a2a-rs-client = "1.0.17"
a2a-rs-server = "1.0.17"
