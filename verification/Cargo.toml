[package]
name = "vitabit"
version = "0.1.0"
edition = "2021"
publish = false

[dependencies]
aes-gcm = "0.10"
base58 = "0.2"
base64 = "0.22"
chrono = "0.4"
generic-array = "0.14"
hex = "0.4"
k256 = "0.13"
pbkdf2 = "0.12"
rand = "0.8"
ripemd = "0.1"
rpassword = "7"
secp256k1 = "0.29"
serde = { version = "1", features = ["derive"] }
serde_json = { version = "1", features = ["preserve_order"] }
sha2 = "0.10"
zeroize = "1"
