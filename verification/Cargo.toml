[package]
name = "kiri"
version = "0.1.0"
edition = "2021"
publish = false

[dependencies]
uuid = { version = "1", features = ["v4", "serde"] }
chrono = { version = "0.4", features = ["serde"] }
base64 = "0.22"
serde = { version = "1", features = ["derive"] }
serde_json = "1"
tempfile = "3"
thiserror = "2"
rusqlite = { version = "*", features = ["bundled"] }
keyring = "3"
tokio = { version = "1", features = ["sync", "rt", "macros"] }
async-trait = "0.1"
hound = "3"
crossbeam-channel = "0.5"

