[package]
name = "quasar"
version = "0.1.0"
edition = "2021"
publish = false

[dependencies]
dialoguer = "*"
dirs = "*"
indicatif = "*"
serde = { version = "1", features = ["derive"] }
toml = "*"
thiserror = "*"
