[package]
name = "kickstart"
version = "0.1.0"
edition = "2021"
publish = false

[dependencies]
tera = "*"
glob = "*"
toml = "*"
walkdir = "*"
serde = { version = "*", features = ["derive"] }
