[package]
name = "sextant"
version = "0.1.0"
edition = "2021"
publish = false

[dependencies]
serde = { version = "=1.0.229", features = ["derive"] }
serde_json = "=1.0.154"
memmap2 = "=0.9.12"
toml = "0.8"
