[package]
name = "spark"
version = "0.1.0"
edition = "2021"
publish = false

[dependencies]
serde_json = "=1.0.151"
jq-rs = { version = "=0.4.1", features = ["bundled"] }
liquid = "=0.24.0"
clap = "*"
colored = "*"
dotenv = "*"
promptly = "*"
shellexpand = "*"
toml = "*"
walkdir = "*"
chrono = "*"
serde = { version = "*", features = ["derive"] }
