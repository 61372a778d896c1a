[package]
name = "anoncreds_issuer"
version = "0.1.0"
edition = "2021"
publish = false

[dependencies]
ursa = { version = "=0.3.7", default-features = false, features = ["cl_native", "serde"] }
sha2 = "0.10"
rust-base58 = "=0.0.4"
serde = { version = "=1.0.229", features = ["derive"] }
serde_json = "=1.0.151"
