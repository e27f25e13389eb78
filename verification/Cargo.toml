[package]
name = "motoboard"
version = "0.1.0"
edition = "2021"
publish = false

[dependencies]
dirs = "5"
rdev = "0.5"
rodio = "0.17"
serde = { version = "1", features = ["derive"] }
serde_json = "1"
uuid = { version = "1", features = ["v4"] }
