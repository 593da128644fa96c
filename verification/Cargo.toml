[package]
name = "serde_lson"
version = "0.1.0"
edition = "2021"
publish = false

[dependencies]
serde = { version = "1", features = ["derive"] }
logos = "0.12"
maplit = "1"
serde_json = "1"
toml = "0.5"
