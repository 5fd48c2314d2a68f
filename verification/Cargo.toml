[package]
name = "dictate"
version = "0.1.0"
edition = "2021"
publish = false

[dependencies]
whatlang = "*"
serde = { version = "*", features = ["derive"] }
serde_json = "*"
anyhow = "*"
dirs = "*"
arboard = "*"
enigo = "*"
regex-syntax = "*"
