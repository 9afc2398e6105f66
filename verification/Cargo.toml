[package]
name = "exobio_rat"
version = "0.1.0"
edition = "2021"
publish = false

[dependencies]
ed-journals = "=0.13.0"
ed-state = { version = "=0.1.0", features = ["exobiology"] }
ed-exobiology = "=0.1.0"
serde = { version = "=1.0.229", features = ["derive"] }
serde_json = "=1.0.154"
ratatui = "=0.29.0"
crossterm = "=0.28.1"
