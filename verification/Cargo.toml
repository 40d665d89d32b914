[package]
name = "snake"
version = "0.1.0"
edition = "2021"
publish = false

[dependencies]
rand = "*"
device_query = "*"
terminal_size = "*"
