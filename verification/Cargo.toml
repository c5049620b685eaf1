[package]
name = "ffnet"
version = "0.1.0"
edition = "2021"
publish = false

[dependencies]
rustc_apfloat = "0.2"
serde = { version = "1", features = ["derive"] }
serde_cbor = "0.11"
