[package]
name = "mime_pick"
version = "0.1.0"
edition = "2021"
publish = false

[dependencies]
rust-ini = "*"
walkdir = "*"
dialoguer = "*"
dirs = "*"
ctrlc = "*"
log = "*"
pretty_env_logger = "*"
