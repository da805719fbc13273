[package]
name = "webhook_dispatcher"
version = "0.1.0"
edition = "2021"
publish = false

[dependencies]
hmac = "0.12"
sha2 = "0.10"
axum = "0.6"
tokio = { version = "1", features = ["macros", "rt-multi-thread", "signal", "process"] }
serde = { version = "1", features = ["derive"] }
serde_json = "1"
serde_yaml = "0.9"
tracing = "0.1"
tracing-appender = "0.2"
tracing-subscriber = { version = "0.3", features = ["env-filter"] }
log = "0.4"
