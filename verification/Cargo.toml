[package]
name = "stake_ledger"
version = "0.1.0"
edition = "2021"
publish = false

[dependencies]
solana-program = "=5.1.0"
solana-pubkey = { version = "=4.4.0", features = ["curve25519"] }
num-traits = "=0.2.19"
