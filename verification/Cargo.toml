[package]
name = "capeit"
version = "0.2.3"
edition = "2021"
publish = false

[dependencies]
anyhow = "1"
dirs = "5"
once_cell = "1"
serde = { version = "1", features = ["derive"] }
serde_json = "1"
tokio = { version = "1", features = ["full"] }
toml = "0.8"
