[package]
name = "semantic_rs"
version = "0.1.0"
edition = "2021"
publish = false

[dependencies]
serde_json = "=1.0.154"
log = "=0.4.34"
env_logger = "=0.11.11"
dotenv = "=0.15.0"
failure = "=0.1.8"
toml = { version = "=0.8.23", features = ["preserve_order"] }
