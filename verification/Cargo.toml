[package]
name = "bioenpro4to_channel_manager"
version = "0.1.0"
edition = "2021"
publish = false

[dependencies]
chacha20poly1305 = "0.9"
aead = "0.4"
base64 = "0.13"
sha2 = "*"
serde = { version = "*", features = ["derive"] }
serde_json = "*"
anyhow = "*"
tokio = { version = "*", features = ["rt", "macros"] }
