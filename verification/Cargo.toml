[package]
name = "keep2turtl"
version = "0.1.0"
edition = "2021"
publish = false

[dependencies]
json = "0.12"
regex = "1"
uuid = { version = "1", features = ["v4"] }
base64 = "0.13"
zip = { version = "0.6", default-features = false, features = ["deflate"] }
image = { version = "0.24", default-features = false, features = ["gif", "jpeg", "png", "webp", "bmp"] }
