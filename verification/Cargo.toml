[package]
name = "keychain"
version = "0.1.0"
edition = "2021"
publish = false

[dependencies]
cryptoxide = "=0.6.5"
rand = "=0.8.8"
libsecp256k1 = "=0.7.2"
