[package]
name = "did_contracts"
version = "0.1.0"
edition = "2021"
publish = false

[dependencies]
ckb-std = { version = "*", default-features = false }
hex = "*"
