[package]
name = "search_compactor"
version = "0.1.0"
edition = "2021"
publish = false

[dependencies]
base64 = "0.13"
rand = "0.8"
ring = "0.17"
rsa = "0.9"
sha1 = { version = "0.10", features = ["oid"] }
sha2 = { version = "0.10", features = ["oid"] }
uuid = "1"
serde = { version = "1", features = ["derive"] }
