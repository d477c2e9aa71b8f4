[package]
name = "sigma_compiler"
version = "0.1.0"
edition = "2021"
publish = false

[dependencies]
ark-ec = "*"
ark-ff = "*"
ark-secp256k1 = "*"
ark-std = "*"
num-bigint = "*"
rand = "0.8"
sha2 = "*"
