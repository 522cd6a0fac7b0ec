[package]
name = "asciirogue"
version = "0.1.0"
edition = "2021"
publish = false

[dependencies]
doryen-fov = "*"
serde = { version = "1", features = ["derive"] }
ron = "0.8"
anyhow = "1"
crossterm = "0.28"
ratatui = "0.29"
