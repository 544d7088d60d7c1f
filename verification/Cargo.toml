[package]
name = "minutes_core"
version = "0.1.0"
edition = "2021"
publish = false

[dependencies]
toml = "*"
serde = { version = "1", features = ["derive"] }
serde_json = "1"
chrono = "0.4"
walkdir = "2"
dirs = "*"
fs2 = "0.4"
libc = "0.2"
