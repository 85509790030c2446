[package]
name = "ergo_handshake"
version = "0.1.0"
edition = "2021"
publish = false

[dev-dependencies]
sigma-ser = "=0.19.0"
