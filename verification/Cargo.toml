[package]
name = "rustup_dist"
version = "0.1.0"
edition = "2021"
publish = false

[dependencies]
semver = "1"
chrono = "0.4"
serde = { version = "1", features = ["derive"] }
toml = "0.8"
