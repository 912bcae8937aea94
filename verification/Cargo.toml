[package]
name = "sab"
version = "0.1.0"
edition = "2021"
publish = false

[dependencies]
anyhow = "1"
aws-config = "0.51"
aws-sdk-s3 = "0.21"
chrono = "0.4"
clap = { version = "4", features = ["derive"] }
env_logger = "0.10"
expanduser = "1"
flate2 = "1"
hex = "0.4"
humanize-rs = "0.1"
log = "0.4"
orion = "0.17"
serde = { version = "1", features = ["derive"] }
serde_yaml = "0.9"
sha2 = "0.10"
tokio = { version = "1", features = ["full"] }
