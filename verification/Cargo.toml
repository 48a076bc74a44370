[package]
name = "vendman"
version = "0.1.0"
edition = "2021"
publish = false

[dependencies]
clap = { version = "4", features = ["derive"] }
dirs = "*"
git2 = "*"
serde = { version = "1", features = ["derive"] }
termimad = "*"
toml = "*"
