[package]
name = "srs_scheduler"
version = "0.1.0"
edition = "2021"
publish = false

[dependencies]
fsrs = "=6.6.2"
serde = { version = "=1.0.229", features = ["derive"] }
serde_json = "=1.0.154"
