[package]
name = "orm"
version = "0.1.0"
edition = "2021"
publish = false

[dependencies]
itertools = "0.8"
postgres = "0.17"
syn = "0.15"
quote = "0.6"
proc-macro2 = "0.4"
env_logger = "0.6"
