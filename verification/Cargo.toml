[package]
name = "pebble"
version = "0.1.0"
edition = "2021"
publish = false

[dependencies]
mlua = { version = "*", features = ["lua54", "vendored"] }
notify = "*"
chrono = "*"
log = "*"
env_logger = "*"
once_cell = "*"
