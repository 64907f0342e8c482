[package]
name = "web-sockets"
version = "0.1.0"
edition = "2021"
publish = false

[dependencies]
env_logger = "0.11"
futures = "0.3"
log = "0.4"
tokio = { version = "1", features = ["macros", "net", "rt-multi-thread"] }
tokio-tungstenite = "0.21"
