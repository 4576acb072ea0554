[package]
name = "voprf"
version = "0.1.0"
edition = "2021"
publish = false

[dependencies]
byteorder = "1"
curve25519-dalek = "2"
digest = "0.8"
hmac = "0.7"
rand_core = { version = "0.5", features = ["getrandom"] }
rust-crypto = "0.2"
sha2 = "0.8"
