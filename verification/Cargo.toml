[package]
name = "fxa_client"
version = "0.1.0"
edition = "2021"
publish = false

[dependencies]
base64 = "=0.13.1"
hex = "=0.4.3"
ece = "2"
ring = "=0.17.14"
url = "2"
openssl = "=0.10.81"
reqwest = { version = "0.11", default-features = false, features = ["blocking", "json"] }
