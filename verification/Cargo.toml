[package]
name = "microbe"
version = "0.1.0"
edition = "2021"
publish = false

[dependencies]
chrono = { version = "0.4", default-features = false, features = ["std", "clock"] }
slugify = "*"
uuid = { version = "1", features = ["v5"] }
