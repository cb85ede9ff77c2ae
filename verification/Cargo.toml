[package]
name = "session_driver"
version = "0.1.0"
edition = "2021"
publish = false

[dependencies]
env_logger = "*"
hex = "0.4"
kcp = "*"
log = "0.4"
