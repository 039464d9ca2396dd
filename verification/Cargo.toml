[package]
name = "clmm_client"
version = "0.1.0"
edition = "2021"
publish = false

[dependencies]
configparser = "=3.3.0"
serde_json = "=1.0.151"
solana-pubkey = { version = "=4.4.0", features = ["curve25519"] }
solana-sdk = "=5.0.0"
