[package]
name = "cosmic-term"
version = "0.1.0"
edition = "2021"
publish = false

[dependencies]
cosmic-text = "*"
hex_color = { version = "*", features = ["serde"] }
serde = { version = "1", features = ["derive"] }
