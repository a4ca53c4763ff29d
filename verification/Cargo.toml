[package]
name = "tracer"
version = "0.1.0"
edition = "2021"
publish = false

[dependencies]
tokio = { version = "*", features = ["full"] }
tokio-tungstenite = "*"
futures-util = "*"
serde = { version = "*", features = ["derive"] }
serde_yaml = "*"
os_pipe = "*"
shared_child = "*"
log = "*"
env_logger = "*"
