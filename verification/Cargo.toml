[package]
name = "augustus"
version = "0.1.0"
edition = "2021"
publish = false

[dependencies]
rand = "=0.9.5"
image = { version = "0.25", default-features = false, features = ["png"] }
serde = { version = "1", features = ["derive"] }
serde_json = "1"
