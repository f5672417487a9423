[package]
name = "junit2json"
version = "0.1.0"
edition = "2021"
publish = false

[dependencies]
clap = { version = "4", features = ["derive"] }
quick-xml = "0.37"
serde = "1"
serde_json = "1"
