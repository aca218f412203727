[package]
name = "chess"
version = "0.1.0"
edition = "2021"
publish = false

[dependencies]
env_logger = "0.9"
ggez = "0.7"
glam = { version = "0.20", features = ["mint"] }
log = "0.4"
thiserror = "1"
