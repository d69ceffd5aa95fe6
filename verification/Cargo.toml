[package]
name = "contentos_core"
version = "0.1.0"
edition = "2021"
publish = false

[dependencies]
rusqlite = { version = "=0.41.1", features = ["bundled", "backup"] }
chrono = "=0.4.45"
uuid = { version = "=1.29.0", features = ["v4"] }
serde = { version = "=1.0.229", features = ["derive"] }
serde_json = "=1.0.154"
blake3 = "=1.8.7"
fs2 = "=0.4.3"
thiserror = "=2.0.21"
