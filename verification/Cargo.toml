[package]
name = "exp_lang"
version = "0.1.0"
edition = "2021"

[dependencies]
rustc-hash = "*"
