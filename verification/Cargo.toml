[package]
name = "tilesets"
version = "0.1.0"
edition = "2021"
publish = false

[dependencies]
serde = { version = "1", features = ["derive"] }
serde-aux = "*"
serde_json = "1"
