[package]
name = "cargo-liner"
version = "0.1.0"
edition = "2021"
publish = false

[dependencies]
anyhow = "1"
clap = { version = "4", features = ["derive"] }
log = "0.4"
pretty_env_logger = "0.5"
semver = "1"
serde = { version = "1", features = ["derive"] }
toml = "0.8"
