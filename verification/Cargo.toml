[package]
name = "kitties"
version = "0.1.0"
edition = "2021"
publish = false

[dependencies]
parity-scale-codec = "3.6.12"
sp-core-hashing = "*"
