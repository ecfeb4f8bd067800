[package]
name = "cargo_tidy"
version = "0.1.0"
edition = "2021"
publish = false

[dependencies]
glob = "*"
regex = "*"
clap = "*"
env_logger = "*"
log = "*"
toml = "*"
serde = { version = "*", features = ["derive"] }
