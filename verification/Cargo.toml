[package]
name = "one_shot_token"
version = "0.1.0"
edition = "2021"
publish = false

[dependencies]
libc = "0.2"
once_cell = "1"
