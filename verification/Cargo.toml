[package]
name = "randomness"
version = "0.1.0"
edition = "2021"
publish = false

[dependencies]
bcs = "=0.1.6"
fastcrypto = "=0.1.11"
fastcrypto-tbls = "=0.1.0"
parking_lot = "=0.12.5"
rand = "=0.8.8"
tracing = "=0.1.44"
