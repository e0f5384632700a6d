[package]
name = "httpcore"
version = "0.1.0"
edition = "2021"
publish = false

[dependencies]
base64 = "*"
curl = "*"
serde_json = "*"
url = "*"
