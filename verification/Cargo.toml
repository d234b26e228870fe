[package]
name = "echo"
version = "0.1.0"
edition = "2021"
publish = false

[dependencies]
borsh = "0.9"
solana-program = "1.9"
spl-token = { version = "3.2", features = ["no-entrypoint"] }
