[package]
name = "katac"
version = "0.1.0"
edition = "2021"
publish = false

[dependencies]
rand = "0.8"
path-clean = "*"
clap = { version = "4", features = ["derive"] }
env_logger = "*"
fs_extra = "*"
inquire = "*"
log = "*"
serde = { version = "*", features = ["derive"] }
serde_json = "*"
toml = "*"
