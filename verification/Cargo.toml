[package]
name = "solana_staking"
version = "0.1.0"
edition = "2021"

[dependencies]
anchor-lang = "=0.31.1"
anchor-spl = "=0.31.1"
