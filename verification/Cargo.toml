[package]
name = "wormhole_gui"
version = "0.1.0"
edition = "2021"
publish = false

[dependencies]
magic-wormhole = "*"
serde = { version = "1", features = ["derive"] }
serde_json = "1"
base64 = "0.22"
minisign-verify = "*"
async-channel = "2"
smol = "2"
futures = "0.3"
futures-util = "0.3"
dirs = "*"
tracing = "0.1"
tracing-subscriber = { version = "0.3", features = ["env-filter"] }
tracing-appender = "0.2"
thiserror = "*"
tokio = { version = "1", features = ["rt", "fs", "io-util", "time", "macros"] }
reqwest = { version = "0.12", default-features = false, features = ["rustls-tls", "stream"] }
