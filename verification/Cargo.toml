[package]
name = "l2_core"
version = "0.1.0"
edition = "2021"
publish = false

[dependencies]
blake3 = "1"
rand = "0.8"
base64 = "0.22"
bs58 = "0.5"
sled = "0.34"
