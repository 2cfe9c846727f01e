[package]
name = "gong"
version = "0.1.0"
edition = "2021"
publish = false

[dependencies]
serde_json = "1"
tokio = { version = "1", features = ["io-util", "macros", "process", "rt", "sync"] }
tokio-util = "0.7"
uuid = { version = "1", features = ["v4"] }
