[package]
name = "security_txt"
version = "0.1.0"
edition = "2021"
publish = false

[dependencies]
chrono = { version = "0.4", default-features = false, features = ["std"] }
language-tags = "0.2"
url = "2"
