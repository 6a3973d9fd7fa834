[package]
name = "elections"
version = "0.1.0"
edition = "2021"
publish = false

[dependencies]
near-sdk = ">=5.1.0, <5.6.0"
