[package]
name = "grafen"
version = "0.1.0"
edition = "2021"
publish = false

[dependencies]
dialoguer = { version = "*", default-features = false }
rand = "0.4"
serde = { version = "1", features = ["derive"] }
serde_json = "1"
