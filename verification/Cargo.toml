[package]
name = "keysynth"
version = "0.1.0"
edition = "2021"
publish = false

[dependencies]
crossterm = "0.28"
ratatui = "0.29"
rodio = { version = "0.20", default-features = false }
