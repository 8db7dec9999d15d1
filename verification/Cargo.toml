[package]
name = "filesystem_sink"
version = "0.1.0"
edition = "2021"
publish = false

[dependencies]
anyhow = "*"
bincode = { version = "*", features = ["derive"] }
bytes = "*"
futures = "*"
object_store = { version = "*", features = ["aws", "gcp"] }
serde = { version = "*", features = ["derive"] }
serde_json = "*"
tokio = { version = "*", features = ["rt", "sync", "time", "macros"] }
url = "*"
