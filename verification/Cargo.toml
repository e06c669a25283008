[package]
name = "schnapsen"
version = "0.1.0"
edition = "2021"
publish = false

[dependencies]
rand = "0.9"
serde = { version = "1", features = ["derive"] }
ratatui = "0.29"
crossterm = "0.28"
