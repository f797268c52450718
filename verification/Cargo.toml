[package]
name = "rhwp"
version = "0.1.0"
edition = "2021"
publish = false

[dependencies]
byteorder = "=1.5.0"
base64 = "=0.22.1"
zip = { version = "=2.6.1", default-features = false, features = ["deflate"] }
image = { version = "=0.25.10", default-features = false, features = ["png", "jpeg", "gif", "bmp"] }
quick-xml = "*"
