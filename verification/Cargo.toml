[package]
name = "devhub"
version = "0.1.0"
edition = "2021"
publish = false

[dependencies]
near-sdk = { version = "=5.30.0", features = ["non-contract-usage"] }
serde_json = "=1.0.154"
html-escape = "=0.2.15"
