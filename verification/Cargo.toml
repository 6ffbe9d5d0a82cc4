[package]
name = "ts_scaffold"
version = "0.1.0"
edition = "2021"
publish = false

[dependencies]
clap = { version = "*", features = ["derive"] }
dialoguer = "*"

[dev-dependencies]
serde_json = "*"
