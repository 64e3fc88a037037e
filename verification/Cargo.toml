[package]
name = "sharesight_prices"
version = "0.1.0"
edition = "2021"
publish = false

[dependencies]
chrono = "=0.4.45"
clap = "=4.6.7"
reqwest = { version = "=0.13.5", default-features = false, features = ["blocking", "form", "json"] }
serde = { version = "=1.0.229", features = ["derive"] }
