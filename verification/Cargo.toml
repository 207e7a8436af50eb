[package]
name = "voanews"
version = "0.1.0"
edition = "2021"
publish = false

[dependencies]
base64 = "=0.21.7"
regex = "=1.13.1"
reqwest = { version = "=0.11.27", default-features = false, features = ["json", "rustls-tls"] }
rocket = { version = "=0.5.2", features = ["json"] }
scraper = "=0.18.1"
serde = { version = "=1.0.229", features = ["derive"] }
sha256 = "=1.6.0"
uuid = { version = "=1.29.0", features = ["v4"] }
