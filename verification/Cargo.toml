[package]
name = "spirograph"
version = "0.1.0"
edition = "2021"
publish = false

[dependencies]
raqote = { version = "*", default-features = false, features = ["png"] }
