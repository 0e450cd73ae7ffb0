[package]
name = "pace_coach"
version = "0.1.0"
edition = "2021"
publish = false

[dependencies]
clap = { version = "4", features = ["derive"] }
rdev = "0.5"
serde = { version = "1", features = ["derive"] }
serde_json = "1"
