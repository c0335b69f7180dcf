[package]
name = "vidpipe"
version = "0.1.0"
edition = "2021"
publish = false

[dependencies]
clap = "*"
indicatif = "*"
reqwest = { version = "*", default-features = false, features = ["blocking"] }
scraper = "*"
serde = { version = "*", features = ["derive"] }
serde_yaml = "*"
