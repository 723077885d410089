[package]
name = "vitis_be"
version = "0.1.0"
edition = "2021"
publish = false

[dependencies]
anyhow = "1"
axum = "0.6"
chrono = "0.4"
convert_case = "0.6"
cookie = "0.17"
dashmap = "5"
env_logger = "0.10"
log = "0.4"
rand = "0.8"
reqwest = { version = "0.11", features = ["json", "cookies"] }
serde = { version = "1", features = ["derive"] }
serde_json = "1"
tokio = { version = "1", features = ["full"] }
urlencoding = "2"
