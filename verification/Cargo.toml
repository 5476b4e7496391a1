[package]
name = "keccaklib"
version = "0.1.0"
edition = "2021"
publish = false

[dev-dependencies]
alloy-primitives = "*"
