[package]
name = "stu_core"
version = "0.1.0"
edition = "2021"
publish = false

[dependencies]
lru = "0.12"
serde = { version = "1", features = ["derive"] }
serde_json = "1"
ratatui = "0.27"
crossterm = "0.27"
