[package]
name = "trust_oracle"
version = "0.1.0"
edition = "2021"
publish = false

[dependencies]
stylus-sdk = "*"
k256 = "*"
sha3 = "*"
