[package]
name = "electron_tasje"
version = "0.1.0"
edition = "2021"
publish = false

[dependencies]
asar = "*"
globreeks = "*"
icns = "*"
ico = "*"
oxipng = "*"
serde_json = "*"
serde_yaml = "*"
toml = "*"
json5 = "*"
clap = { version = "*", features = ["derive"] }
walkdir = "*"
anyhow = "*"
