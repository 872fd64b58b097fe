[package]
name = "herdr_modes"
version = "0.2.0"
edition = "2021"
publish = false

[dependencies]
crossterm = "*"
serde = { version = "1", features = ["derive"] }
serde_json = "1"
toml = "*"
