[package]
name = "safe_core"
version = "0.1.0"
edition = "2021"
publish = false

[dependencies]
tiny-keccak = "1"
scrypt = { version = "*", default-features = false }
crypto_secretbox = "*"
ed25519-dalek = "2"
x25519-dalek = { version = "2", features = ["static_secrets"] }
blsttc = "*"
threshold_crypto = "*"
rand = "0.8"
