[package]
name = "compass_lunch"
version = "0.1.0"
edition = "2021"
publish = false

[dependencies]
serde = { version = "*", features = ["derive"] }
serde_json = { version = "*", features = ["preserve_order"] }
html-escape = "*"
scraper = "*"
time = { version = "*", features = ["local-offset"] }
reqwest = { version = "*", default-features = false, features = ["blocking"] }
