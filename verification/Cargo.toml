[package]
name = "jokers"
version = "0.1.0"
edition = "2021"
publish = false

[dependencies]
serde_json = "1"
serde_yaml = "0.9"
reqwest = { version = "0.12", features = ["blocking"] }
thiserror = "1"
syn = "2"
quote = "1"
