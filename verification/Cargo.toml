[package]
name = "accounts_config"
version = "0.1.0"
edition = "2021"
publish = false

[dependencies]
casper-types = "1"
casper-execution-engine = "1"
rand = "0.8"
serde = { version = "1", features = ["derive"] }
toml = "0.5"
