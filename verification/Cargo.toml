[package]
name = "newsapi"
version = "0.1.0"
edition = "2021"
publish = false

[dependencies]
percent-encoding = "*"
chrono = "*"
reqwest = { version = "*", default-features = false, features = ["blocking"] }
serde = { version = "*", features = ["derive"] }
serde_json = "*"
