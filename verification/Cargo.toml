[package]
name = "ckb_pitfalls"
version = "0.1.0"
edition = "2021"
publish = false

[dependencies]
ckb-std = "0.15"
blake2b-ref = "0.3"
