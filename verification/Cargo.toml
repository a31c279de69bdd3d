[package]
name = "preprocess"
version = "0.1.0"
edition = "2021"
publish = false

[dependencies]
regex = "*"
idna = "*"
url = "*"
serde = { version = "*", features = ["derive"] }
dashmap = "*"
