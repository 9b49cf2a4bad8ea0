[package]
name = "blitz_integration"
version = "0.1.0"
edition = "2021"
publish = false

[dependencies]
chrono = "0.4"
lru = "0.12"
serde = { version = "1", features = ["derive"] }
serde_json = "1"
thiserror = "1"
kurbo = "0.11"
keyboard-types = "0.7"
fastrand = "2"
