[package]
name = "totp_server"
version = "0.1.0"
edition = "2021"
publish = false

[dependencies]
hmac = "0.12"
sha1 = "0.10"
base32 = "0.4"
rand = "0.8"
tiny_http = "0.12"
qrcode = { version = "0.14", default-features = false, features = ["svg"] }
urlencoding = "2.1"
