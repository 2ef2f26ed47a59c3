[package]
name = "roll_initiative"
version = "0.1.0"
edition = "2021"
publish = false

[dependencies]
anyhow = "1"
crossterm = "0.27"
lazy_static = "1"
ratatui = { version = "0.26", features = ["unstable-widget-ref"] }
