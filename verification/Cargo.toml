[package]
name = "gandi_dyndns"
version = "0.1.0"
edition = "2021"
publish = false

[dependencies]
env_logger = "0.9"
log = "0.4"
reqwest = "0.11"
serde = { version = "1", features = ["derive"] }
serde_json = "1"
tokio = { version = "1", features = ["macros", "rt"] }
trust-dns-resolver = "0.20"
