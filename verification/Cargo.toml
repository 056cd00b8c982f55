[package]
name = "xoq"
version = "0.1.0"
edition = "2021"
publish = false

[dependencies]
anyhow = "1"
bytes = "1"
cpal = "0.15"
image = { version = "=0.24.9", default-features = false, features = ["jpeg"] }
jpeg-decoder = { version = "=0.3.2", default-features = false, features = ["platform_independent"] }
moq-native = "0.12"
rand = "=0.9.5"
serde_json = "=1.0.154"
socketcan = { version = "3", default-features = false }
tokio = { version = "1", features = ["full"] }
tokio-serial = { version = "5", default-features = false }
tokio-util = "0.7"
tracing = "0.1"
tracing-subscriber = { version = "0.3", features = ["env-filter"] }
url = "=2.5.8"
