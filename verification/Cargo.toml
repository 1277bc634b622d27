[package]
name = "lockbox"
version = "0.1.0"
edition = "2021"
publish = false

[dependencies]
age = { version = "=0.11.5", features = ["armor"] }
base64 = "=0.22.1"
bech32 = "=0.9.1"
chrono = { version = "=0.4.45", default-features = false, features = ["now"] }
extendr-api = "=0.9.0"
x25519-dalek = { version = "=2.0.1", features = ["static_secrets"] }
