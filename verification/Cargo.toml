[package]
name = "docstyle"
version = "0.1.0"
edition = "2021"
publish = false

[dependencies]
zip = { version = "*", default-features = false, features = ["deflate"] }
chrono = "*"
serde = { version = "*", features = ["derive"] }
serde_json = "*"
