[package]
name = "dioscuri"
version = "0.1.0"
edition = "2021"
publish = false

[dependencies]
url = "2"
x509-parser = "*"
markdown = "*"
native-tls = "0.2"
tokio = { version = "1", features = ["full"] }
axum = "0.8"
dirs = "*"
