[package]
name = "blogsync"
version = "0.1.0"
edition = "2021"
publish = false

[dependencies]
aes-gcm = "*"
blake3 = "*"
hex = "*"
minify-html = "*"
rand = "*"
tokio = { version = "*", features = ["full"] }
