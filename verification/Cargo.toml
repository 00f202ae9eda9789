[package]
name = "ysc2"
version = "0.1.0"
edition = "2021"
publish = false

[dependencies]
cipher = "=0.4.4"
digest = "=0.10.7"
aead = "=0.5.2"
zeroize = "=1.9.1"

[dev-dependencies]
rand_core = "=0.6.4"
rand_chacha = "0.3"
