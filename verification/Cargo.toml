[package]
name = "memeperp"
version = "0.1.0"
edition = "2021"
publish = false

[dependencies]
anchor-lang = "0.30"
anchor-spl = "0.30"
pyth-sdk-solana = "0.10"
