[package]
name = "rustfast"
version = "0.1.0"
edition = "2021"
publish = false

[dependencies]
base64 = "*"
hmac = "*"
sha2 = "*"
serde = { version = "1", features = ["derive"] }
serde_json = "1"
serde_yaml = "*"
uuid = { version = "1", features = ["v4"] }
chrono = "0.4"
thiserror = "*"
tokio = { version = "1", features = ["full"] }
tracing = "0.1"
tracing-subscriber = { version = "0.3", features = ["env-filter"] }
rusqlite = { version = "*", features = ["bundled"] }
