[package]
name = "dcscrape"
version = "0.1.0"
edition = "2021"
publish = false

[dependencies]
regex = "1"
html2text = "*"
scraper = "*"
reqwest = { version = "*", default-features = false, features = ["json", "rustls-tls"] }
tokio = { version = "1", features = ["macros", "rt-multi-thread"] }
futures = "0.3"
chrono = "0.4"
serde_json = "1"
