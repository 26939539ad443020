[package]
name = "teleecho"
version = "0.1.0"
edition = "2021"
publish = false

[dependencies]
clap = "=2.34.0"
futures = "=0.3.34"
rand = "=0.7.3"
serde_json = "=1.0.154"
telegram-bot = "=0.8.0"
time = "=0.1.45"
tokio = { version = "=0.2.25", features = ["rt-core"] }
