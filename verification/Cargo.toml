[package]
name = "job_hub"
version = "0.1.0"
edition = "2021"
publish = false

[dependencies]
uuid = { version = "*", features = ["v4"] }
tokio = { version = "*", features = ["rt-multi-thread", "macros", "process", "io-util", "time", "sync", "fs", "signal"] }
serde = { version = "*", features = ["derive"] }
serde_json = "*"
url = "*"
