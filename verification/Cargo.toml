[package]
name = "termban"
version = "0.1.0"
edition = "2021"
publish = false

[dependencies]
ndarray = "*"
ratatui = "*"
serde = { version = "*", features = ["derive"] }
toml = "*"
