[package]
name = "wt"
version = "0.1.0"
edition = "2021"
publish = false

[dependencies]
clap = { version = "4", features = ["derive"] }
fuzzy-matcher = "0.3"
inquire = "0.7"
serde = { version = "1", features = ["derive"] }
toml = "0.8"
