[package]
name = "chatrans"
version = "0.1.0"
edition = "2021"
publish = false

[dependencies]
anyhow = "1"
async-broadcast = "0.7"
async-channel = "2"
base64 = "0.22"
blowfish = "0.9"
chrono = "0.4"
cipher = "0.4"
clap = { version = "4", features = ["derive"] }
flate2 = "1"
futures-util = "0.3"
hmac = "0.12"
md-5 = "0.10"
notify = "6"
reqwest = { version = "0.12", default-features = false }
serde = { version = "1", features = ["derive"] }
serde-pickle = "1"
serde_json = "1"
sha1 = "0.10"
tokio = { version = "1", features = ["rt", "net", "time", "signal", "macros"] }
tokio-tungstenite = "0.21"
tokio-util = "0.7"
tracing = "0.1"
tracing-subscriber = "0.3"
url = "2"
uuid = { version = "1", features = ["v4"] }
