[package]
name = "chat_core"
version = "0.1.0"
edition = "2021"
publish = false

[dependencies]
chrono = "=0.4.45"
tokio = { version = "=1.53.2", features = ["rt-multi-thread", "macros", "sync", "net"] }
axum = { version = "=0.8.9", features = ["ws"] }
futures = "=0.3.34"

[dev-dependencies]
serde_json = "=1.0.151"
