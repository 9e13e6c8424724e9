[package]
name = "websearch"
version = "0.1.0"
edition = "2021"
publish = false

[dependencies]
chrono = "0.4"
rand = "0.9"
reqwest = { version = "0.12", features = ["blocking"] }
scraper = "*"
serde = { version = "1", features = ["derive"] }
