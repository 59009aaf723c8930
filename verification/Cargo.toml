[package]
name = "reposcryer"
version = "0.1.0"
edition = "2021"
publish = false

[dependencies]
sha2 = "0.10"
anyhow = "1"
clap = { version = "4", features = ["derive"] }
ignore = "0.4"
serde = { version = "1", features = ["derive"] }
serde_json = "1"
toml = "0.8"
kuzu = "0.11"

[dev-dependencies]
regex = "1"
