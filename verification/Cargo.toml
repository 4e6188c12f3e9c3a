[package]
name = "umbral_pre"
version = "0.1.0"
edition = "2021"
publish = false

[dependencies]
k256 = "0.13"
sha2 = "0.10"
hkdf = "0.12"
chacha20poly1305 = "0.10"
rand_core = { version = "0.6", features = ["getrandom"] }
