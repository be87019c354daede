[package]
name = "merkle_airdrop"
version = "0.1.0"
edition = "2021"
publish = false

[dependencies]
sha3 = "*"
cosmwasm-std = "*"
serde = { version = "*", features = ["derive"] }

[dev-dependencies]
hex = "*"
