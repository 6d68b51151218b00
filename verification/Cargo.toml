[package]
name = "valetui"
version = "0.1.0"
edition = "2021"
publish = false

[dependencies]
chrono = "=0.4.45"
dirs = "=7.0.0"
whoami = "=2.1.3"
serde = { version = "1", features = ["derive"] }
serde_json = "1"
