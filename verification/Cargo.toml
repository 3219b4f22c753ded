[package]
name = "screen_webp"
version = "0.1.0"
edition = "2021"
publish = false

[dependencies]
base64 = "*"
webp = "*"
xcap = "*"
serde = { version = "*", features = ["derive"] }
serde_json = "*"
