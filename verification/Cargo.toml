[package]
name = "index3ds"
version = "0.1.0"
edition = "2021"
publish = false

[dependencies]
aes-ctr = "=0.6.0"
base64 = "=0.23.1"
png = "=0.17.16"
rand = "=0.8.8"
rsa = "=0.9.10"
serde = { version = "=1.0.229", features = ["derive"] }
serde_json = "=1.0.151"
sha2 = { version = "=0.10.9", features = ["oid"] }
