[package]
name = "key_bind"
version = "0.1.0"
edition = "2021"
publish = false

[dependencies]
iced_core = "0.12"
serde = { version = "1", features = ["derive"] }
