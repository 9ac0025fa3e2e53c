[package]
name = "user_service"
version = "0.1.0"
edition = "2021"
publish = false

[dependencies]
postgres = "0.19"

[dev-dependencies]
serde_json = "1.0"
