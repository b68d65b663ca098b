[package]
name = "mdb"
version = "0.1.0"
edition = "2021"
publish = false

[dependencies]
chrono = "*"
dirs = "*"
shellexpand = "*"
toml = "*"
serde = { version = "*", features = ["derive"] }
clap = "*"
