[package]
name = "dictee"
version = "0.1.0"
edition = "2021"
publish = false

[dependencies]
cpal = "0.17"
serde = { version = "1", features = ["derive"] }
serde_json = "1"
thiserror = "2"
tracing = "0.1"
tracing-subscriber = { version = "0.3", features = ["env-filter"] }
whisper-rs = "*"
zeroize = "1"
