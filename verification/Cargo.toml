[package]
name = "yoga_booking"
version = "0.1.0"
edition = "2021"
publish = false

[dependencies]
chrono = "*"
rocket = "*"
serde = { version = "*", features = ["derive"] }
serde_json = "*"
yaml-rust = "*"
dotenv = "*"
