[package]
name = "dex_state"
version = "0.1.0"
edition = "2021"
publish = false

[dependencies]
spl-token = "*"
solana-program = "*"
solana-program-pack = "*"
