[package]
name = "confidential_settlement"
version = "0.1.0"
edition = "2021"
publish = false

[dependencies]
solana-program = "=5.1.0"
solana-cpi = "=3.1.0"
solana-instruction = "=4.0.0"
solana-program-error = "=3.0.1"
solana-system-interface = "=3.3.0"

[dev-dependencies]
borsh = { version = "=1.8.1", default-features = false, features = ["std"] }
