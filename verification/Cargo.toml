[package]
name = "fat-clip"
version = "0.1.0"
edition = "2021"
publish = false

[dependencies]
chrono = { version = "0.4", features = ["serde"] }
serde = { version = "1", features = ["derive"] }
serde_json = "1"
image = "0.25"
rusqlite = { version = "*", features = ["bundled"] }
dirs = "*"
arboard = "3"
sys-locale = "0.3"
