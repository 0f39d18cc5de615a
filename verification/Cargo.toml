[package]
name = "rustysignal"
version = "2.0.0"
edition = "2021"
publish = false

[dependencies]
serde_json = "=1.0.154"
serde = "=1.0.229"
ws = { version = "=0.9.2", features = ["ssl"] }
clap = "=2.34.0"
env_logger = "=0.6.2"
openssl = "=0.10.81"
web-push = "0.7"
tokio = { version = "0.2", features = ["rt-core", "time"] }
futures = "=0.1.31"
base64 = "=0.10.1"
