[package]
name = "tapo"
version = "0.1.0"
edition = "2021"
publish = false

[dependencies]
aes = "0.8"
cbc = { version = "0.1", features = ["alloc"] }
getrandom = "0.2"
serde_json = "1"
sha1 = "0.10"
sha2 = "0.10"
