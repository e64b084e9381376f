[package]
name = "copydog"
version = "0.2.0"
edition = "2021"
publish = false

[dependencies]
toml = "0.8"
notify = "*"
anyhow = "*"
