[package]
name = "secrets"
version = "1.2.0"
edition = "2021"
publish = false

[dependencies]
libc = "0.2"
libsodium-sys = "0.2"
