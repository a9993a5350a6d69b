[package]
name = "poke_escape_server"
version = "0.1.0"
edition = "2021"
publish = false

[dependencies]
semver = "*"
toml = "*"
serde_json = "*"
serde = { version = "*", features = ["derive"] }
colored = "*"
clap = "*"
