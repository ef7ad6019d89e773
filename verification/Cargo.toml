[package]
name = "codex_api"
version = "0.1.0"
edition = "2021"
publish = false

[dependencies]
eventsource-stream = "0.2.3"
futures = "0.3"
http = "1.3"
serde = { version = "1", features = ["derive"] }
serde_json = "1"
tokio = { version = "1", features = ["macros", "rt", "rt-multi-thread", "sync", "time"] }
tracing = "0.1"
uuid = { version = "1", features = ["v4"] }
