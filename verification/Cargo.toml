[package]
name = "batalha_naval"
version = "0.1.0"
edition = "2021"
publish = false

[dependencies]
argon2 = { version = "0.5", features = ["std"] }
godot = "0.2"
serde_json = "1"
