[package]
name = "aria2_sync"
version = "0.1.0"
edition = "2021"
publish = false

[dependencies]
aria2-ws = "*"
serde = { version = "1", features = ["derive"] }
serde_json = "1"
serde_with = "*"
tokio = { version = "1", features = ["macros", "rt-multi-thread", "sync", "time"] }
