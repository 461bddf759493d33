[package]
name = "admission_core"
version = "0.1.0"
edition = "2021"
publish = false

[dependencies]
bcrypt = "*"
chrono = "*"
jsonwebtoken = "*"
serde = { version = "*", features = ["derive"] }
uuid = { version = "*", features = ["v4"] }
