[package]
name = "double_ratchet"
version = "0.1.0"
edition = "2021"
publish = false

[dependencies]
x25519-dalek = { version = "2", features = ["static_secrets"] }
rand = "0.8"
hkdf = "0.12"
sha2 = "0.10"
hmac = "0.12"
aes = "0.8"
cbc = { version = "0.1", features = ["alloc", "block-padding"] }
subtle = "2"
