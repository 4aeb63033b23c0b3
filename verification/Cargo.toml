[package]
name = "pc_price_check"
version = "0.1.0"
edition = "2021"
publish = false

[dependencies]
anyhow = "1"
scraper = "*"
serde = { version = "1", features = ["derive"] }
toml = "*"
ureq = "2"
url = "2"
