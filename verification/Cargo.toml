[package]
name = "gitm"
version = "0.1.0"
edition = "2021"
publish = false

[dependencies]
toml = "=0.5.11"
log = "=0.4.34"
env_logger = "=0.9.3"
