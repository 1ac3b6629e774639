[package]
name = "gate_rust_sdk"
version = "0.1.0"
edition = "2021"
publish = false

[dependencies]
hmac = "*"
sha2 = "*"
serde = { version = "*", features = ["derive"] }
serde_json = "*"
anyhow = "*"
reqwest = { version = "*", default-features = false, features = ["json"] }
