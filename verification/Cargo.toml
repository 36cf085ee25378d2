[package]
name = "mentisdbd"
version = "0.1.0"
edition = "2021"
publish = false

[dependencies]
axum = "0.8"
dashmap = "6"
diffy = "0.4"
env_logger = "0.11"
log = "0.4"
rodio = "*"
serde = { version = "1", features = ["derive"] }
serde_json = "1"
tokio = { version = "1", features = ["macros", "rt-multi-thread", "signal", "sync"] }
uuid = "1"
