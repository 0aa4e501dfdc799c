[package]
name = "codo"
version = "0.1.0"
edition = "2021"
publish = false

[dependencies]
users = "0.11"
clap = "2"
dirs = "4"
env_logger = "0.9"
log = "0.4"
yaml-rust = "0.4"
