[package]
name = "ams-yt-dw"
version = "1.3.0"
edition = "2021"
publish = false

[dependencies]
qrcode = { version = "0.14.1", default-features = false }
dirs = "6.0.0"
arboard = { version = "3.7.0", default-features = false }
rfd = "0.15.4"
slint = { version = "1", default-features = false, features = ["std", "compat-1-2"] }
