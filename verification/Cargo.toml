[package]
name = "luana"
version = "0.1.0"
edition = "2021"
publish = false

[dependencies]
full_moon = { version = "0.15", features = ["roblox"] }
serde = { version = "1", features = ["derive"] }
serde_json = "1"
clap = { version = "3", features = ["derive"] }
