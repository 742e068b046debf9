[package]
name = "everlend_core"
version = "0.1.0"
edition = "2021"
publish = false

[dependencies]
anyhow = "1"
borsh = "0.9"
solana-program = "1.9"
solana-sdk = "1.9"
spl-associated-token-account = { version = "1", features = ["no-entrypoint"] }
spl-token = { version = "3", features = ["no-entrypoint"] }
spl-token-lending = { version = "0.2", features = ["no-entrypoint"] }
