[package]
name = "sophia"
version = "0.1.0"
edition = "2021"
publish = false

[dependencies]
malachite = "*"
regex = "*"
serde = { version = "*", features = ["derive"] }
serde_json = "*"
