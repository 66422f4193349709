[package]
name = "portfolio_rs"
version = "0.1.0"
edition = "2021"
publish = false

[dependencies]
anyhow = "=1.0.104"
bincode = "=1.3.3"
calamine = { version = "=0.30.1", features = ["dates"] }
chrono = "=0.4.45"
csv = "=1.4.0"
hex = "=0.4.3"
once_cell = "=1.21.4"
reqwest = { version = "=0.12.28", default-features = false, features = ["blocking", "json", "rustls-tls"] }
serde = { version = "=1.0.229", features = ["derive"] }
serde_json = "=1.0.154"
sha2 = "=0.10.9"
thiserror = "=1.0.69"
