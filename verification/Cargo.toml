[package]
name = "ristretto_schnorr"
version = "0.1.0"
edition = "2021"
publish = false

[dependencies]
curve25519-dalek = "4"

[dev-dependencies]
rand = "0.8"
blake2 = "0.10"
