[package]
name = "shiika"
version = "0.1.0"
edition = "2021"
publish = false

[dependencies]
anyhow = "1"
clap = { version = "3", features = ["derive"] }
json5 = "0.4"
serde = { version = "1", features = ["derive"] }
