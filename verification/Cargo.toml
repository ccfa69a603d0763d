[package]
name = "bluesky_push_notifier"
version = "0.1.0"
edition = "2021"
publish = false

[dependencies]
sha2 = "0.10"
tokio = { version = "1", features = ["rt-multi-thread", "macros", "sync", "time", "net", "signal"] }
serde = { version = "1", features = ["derive"] }
serde_json = "1"
reqwest = { version = "0.12", default-features = false, features = ["json", "rustls-tls"] }
axum = "*"
a2 = "*"
futures = "0.3"
tokio-tungstenite = "*"
atrium-api = "*"
atrium-repo = "*"
serde_ipld_dagcbor = "*"
ipld-core = "*"
anyhow = "1"
