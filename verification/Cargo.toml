[package]
name = "treehash"
version = "0.1.0"
edition = "2021"
publish = false

[dependencies]
sha1 = "0.6"
walkdir = "*"
parallel-iterator = "*"
log = "*"
env_logger = "*"
