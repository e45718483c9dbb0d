[package]
name = "headset-battery-indicator"
version = "0.1.0"
edition = "2021"
publish = false

[dependencies]
anyhow = "1"
clap = { version = "4", features = ["derive"] }
env_logger = "0.11"
log = "0.4"
rustix = { version = "1", features = ["event", "fs", "pipe", "stdio"] }
serde = { version = "1", features = ["derive"] }
serde_json = "1"
signal-hook = "0.3"
