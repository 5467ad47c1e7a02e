[package]
name = "indtp"
version = "0.1.0"
edition = "2021"
publish = false

[dependencies]
aes = "0.8"
cmac = "0.7"
ctr = "0.9"
hmac = "0.12"
sha2 = "0.10"
crc = "3"
zerocopy = { version = "0.8", features = ["derive"] }
