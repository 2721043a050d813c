[package]
name = "grease"
version = "0.1.0"
edition = "2021"
publish = false

[dependencies]
mio = "0.6"
mio-more = "*"
multi-map = "*"
log = "0.4"
env_logger = "0.10"
time = "0.1"
