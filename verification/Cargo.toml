[package]
name = "grok2api"
version = "0.1.0"
edition = "2021"
publish = false

[dependencies]
async-stream = "*"
axum = "*"
bytes = "*"
chrono = "*"
futures = "*"
reqwest = { version = "*", default-features = false }
serde = { version = "*", features = ["derive"] }
serde_json = "*"
tracing = "*"
uuid = { version = "*", features = ["v4"] }
