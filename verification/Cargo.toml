[package]
name = "receptionist"
version = "0.1.0"
edition = "2021"
publish = false

[dependencies]
regex = "*"
nanoid = "*"
serde = { version = "*", features = ["derive"] }
serde_json = "*"
