[package]
name = "async-observable"
version = "0.1.0"
edition = "2021"
publish = false

[dependencies]
futures = "0.3"

[dev-dependencies]
async-std = "1"
