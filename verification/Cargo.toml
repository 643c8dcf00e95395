[package]
name = "chat_core"
version = "0.1.0"
edition = "2021"
publish = false

[dependencies]
uuid = { version = "=1.27.0", features = ["v4", "serde"] }
chrono = { version = "=0.4.45", features = ["serde"] }
dashmap = "=6.2.1"
serde = { version = "=1.0.229", features = ["derive"] }
socketioxide = { version = "=0.18.7", features = ["state"] }
axum = "=0.8.9"
tokio = { version = "=1.53.2", features = ["macros", "rt-multi-thread", "net"] }
color-eyre = "=0.6.5"
dotenvy = "=0.15.7"
tracing = "=0.1.44"
tracing-error = "=0.2.1"
tracing-subscriber = { version = "=0.3.23", features = ["env-filter"] }
ts-rs = "=12.0.1"
