[package]
name = "base64_bytes"
version = "0.1.0"
edition = "2021"
publish = false

[dependencies]
base64 = "0.22"
serde = "1"

[dev-dependencies]
bincode = "1"
serde_json = "1"
rand = "0.8"
