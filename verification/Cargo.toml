[package]
name = "gitai"
version = "0.1.0"
edition = "2021"
publish = false

[dependencies]
semver = "1"
serde = { version = "1", features = ["derive"] }
serde_json = "1"
chrono = "0.4"
shellexpand = "3"
md5 = "0.7"
tracing = "0.1"
tracing-subscriber = "0.3"
toml = "0.8"
serde_yaml = "0.9"
dirs = "5"
log = "0.4"
env_logger = "0.11"
anyhow = "1"
rmcp = "0.2"
