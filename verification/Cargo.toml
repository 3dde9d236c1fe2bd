[package]
name = "leantoken"
version = "0.1.0"
edition = "2021"
publish = false

[dependencies]
base64 = "=0.22.1"
blake3 = "=1.8.7"
globset = "=0.4.21"
ignore = "0.4"
jmespath = "=0.3.0"
nucleo-matcher = "=0.3.1"
regex = "=1.13.1"
rusqlite = { version = "0.32", features = ["bundled"] }
serde = { version = "=1.0.229", features = ["derive"] }
serde_json = "=1.0.154"
similar = "=2.7.0"
tokio = { version = "=1.54.1", features = ["sync", "rt", "time", "macros"] }
tokio-util = "=0.7.20"
