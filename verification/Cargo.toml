[package]
name = "gq_server"
version = "0.1.0"
edition = "2021"
publish = false

[dependencies]
base64 = "*"
sha3 = "*"
pasetors = "*"
uuid = { version = "*", features = ["v4"] }
chrono = "*"
