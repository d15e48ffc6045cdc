[package]
name = "meesign_crypto"
version = "0.1.0"
edition = "2021"
publish = false

[dependencies]
k256 = "*"
musig2 = "*"
rand = "*"
secp256k1 = "*"
serde = "*"
serde_json = "*"
