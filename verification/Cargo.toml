[package]
name = "hasty"
version = "0.1.0"
edition = "2021"
publish = false

[dependencies]
url = "*"
rustls = { version = "*", default-features = false, features = ["ring", "std", "logging", "tls12"] }
mime = "*"
log = "*"
