[package]
name = "tiny_proxy"
version = "0.1.0"
edition = "2021"
publish = false

[dependencies]
base64 = "*"
httparse = "*"
tokio = { version = "*", features = ["full"] }
