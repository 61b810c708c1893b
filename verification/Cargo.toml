[package]
name = "token_extractor"
version = "0.1.0"
edition = "2021"
publish = false

[dependencies]
serde_json = "1"
base64 = "0.22"
aes-gcm = "0.10"
rand = "0.8"
