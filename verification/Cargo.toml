[package]
name = "oef"
version = "0.1.0"
edition = "2021"
publish = false

[dependencies]
rand = "0.8"
num = "0.4"
serde = { version = "1", features = ["derive"] }
