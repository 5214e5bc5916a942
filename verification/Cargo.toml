[package]
name = "veritas_core"
version = "0.1.0"
edition = "2021"
publish = false

[dependencies]
base64 = "0.22"
image = { version = "0.25", default-features = false, features = ["png", "jpeg"] }
sha2 = "0.10"
hmac = "0.12"
aes-gcm = "0.10"
pbkdf2 = "0.12"
rand = "0.8"
uuid = { version = "1", features = ["v4"] }
serde = { version = "1", features = ["derive"] }
serde_json = "1"
