[package]
name = "snsx"
version = "0.1.0"
edition = "2021"
publish = false

[dependencies]
sha3 = "0.10"
ed25519-dalek = { version = "2", features = ["rand_core"] }
x25519-dalek = { version = "2", features = ["static_secrets"] }
aes-gcm-siv = "0.11"
base64 = "0.22"
rand_core = { version = "0.6", features = ["getrandom"] }
serde = { version = "1", features = ["derive"] }
serde_json = "1"
toml = "0.8"
anyhow = "1"
thiserror = "1"
crossterm = "0.27"
notify = "6"
