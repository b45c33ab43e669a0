[package]
name = "ed25519_compact"
version = "0.1.0"
edition = "2021"
publish = false

[dependencies]
curve25519-dalek = "4"
sha2 = "0.10"
getrandom = "0.2"

[dev-dependencies]
hex = "0.4"
