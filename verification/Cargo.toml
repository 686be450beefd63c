[package]
name = "neo"
version = "0.1.0"
edition = "2021"
publish = false

[dependencies]
ureq = "2"
multipart = { version = "0.18", default-features = false, features = ["client"] }
camino = "1"
clap = "4"
anyhow = "1"
env_logger = "0.11"
