[package]
name = "bundlrs"
version = "0.1.0"
edition = "2021"
publish = false

[dependencies]
regex = "=1.13.1"
serde = { version = "=1.0.229", features = ["derive"] }
serde_json = "=1.0.154"
clap = { version = "=4.6.7", features = ["derive"] }
awc = { version = "=3.11.0", default-features = false, features = ["cookies"] }
actix-rt = "=2.15.0"
toml = "0.8"
