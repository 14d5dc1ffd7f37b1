[package]
name = "account_service"
version = "0.1.0"
edition = "2021"
publish = false

[dependencies]
bcrypt = "*"
hmac = "*"
sha2 = "*"
serde = { version = "*", features = ["derive"] }
serde_json = "*"
