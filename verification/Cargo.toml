[package]
name = "fernq"
version = "0.1.0"
edition = "2021"
publish = false

[dependencies]
crc = "=3.4.0"
uuid = { version = "=1.29.0", features = ["v4", "serde"] }
serde_json = "=1.0.154"
serde = { version = "=1.0.229", features = ["derive"] }
bincode = { version = "=2.0.1", features = ["serde"] }
bytes = "=1.12.1"
fjall = "=3.1.13"
tokio = { version = "=1.54.1", features = ["full"] }
tokio-util = "=0.7.20"
dashmap = "=6.2.1"
tracing = "=0.1.44"
tracing-subscriber = "=0.3.23"
clap = { version = "=4.6.7", features = ["derive"] }
config = { version = "=0.15.27", default-features = false, features = ["ini"] }
anyhow = "=1.0.104"
colored = "=3.1.1"
