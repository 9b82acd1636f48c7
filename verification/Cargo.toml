[package]
name = "ed2k"
version = "1.0.0"
edition = "2021"
publish = false

[dependencies]
digest = "0.10"
md4 = "0.10"
