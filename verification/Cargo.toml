[package]
name = "kuma-client"
version = "0.1.0"
edition = "2021"
publish = false

[dependencies]
futures-util = "0.3"
itertools = "*"
log = "0.4"
rust_socketio = { version = "*", features = ["async"] }
serde = { version = "1", features = ["derive"] }
serde_json = "1"
serde_merge = "*"
tokio = { version = "1", features = ["rt", "rt-multi-thread", "sync", "time"] }
