[package]
name = "market_resolver"
version = "0.1.0"
edition = "2021"
publish = false

[dependencies]
hex = "*"
sha2 = "*"
serde = { version = "*", features = ["derive"] }
serde_json = "*"
