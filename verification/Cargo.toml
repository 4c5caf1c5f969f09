[package]
name = "talky"
version = "0.1.0"
edition = "2021"
publish = false

[dependencies]
uuid = { version = "=1.29.0", features = ["v4"] }
rand = "=0.8.8"
chrono = "=0.4.45"
sha2 = "=0.10.9"
base64 = "=0.22.1"
url = "=2.5.8"
jsonwebtoken = "=9.3.1"
serde = { version = "=1.0.229", features = ["derive"] }
serde_json = { version = "=1.0.154", features = ["raw_value"] }
axum = "=0.8.9"
tokio = { version = "=1.54.1", features = ["rt-multi-thread", "macros", "net", "sync", "time"] }
tokio-util = "=0.7.20"
rusqlite = { version = "=0.32.1", features = ["bundled"] }
anyhow = "=1.0.104"
log = "=0.4.35"
reqwest = { version = "=0.12.28", default-features = false, features = ["json", "rustls-tls"] }
