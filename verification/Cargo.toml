[package]
name = "nuckrelay"
version = "0.1.0"
edition = "2021"
publish = false

[dependencies]
anyhow = "1"
base64 = "0.22"
bytes = "1"
clap = { version = "4", features = ["derive", "env"] }
fastwebsockets = "0.10"
futures-util = { version = "0.3", features = ["sink"] }
rust-crypto = "0.2.36"
tokio = { version = "1", features = ["full"] }
tokio-tungstenite = "0.26"
tracing = "0.1"
tracing-subscriber = "0.3"
url = "2"
