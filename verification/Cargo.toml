[package]
name = "message_scraper"
version = "0.1.0"
edition = "2021"
publish = false

[dependencies]
clap = { version = "4", features = ["derive"] }
reqwest = { version = "0.12", features = ["blocking"] }
rusqlite = "*"
serde = { version = "1", features = ["derive"] }
serde_json = "1"
