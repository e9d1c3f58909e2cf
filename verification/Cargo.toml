[package]
name = "pallet_artists"
version = "0.1.0"
edition = "2021"
publish = false

[dependencies]
sp-crypto-hashing = "*"
sp-core-hashing = "*"
parity-scale-codec = { version = "*", features = ["derive"] }
