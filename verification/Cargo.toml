[package]
name = "php_guard"
version = "0.1.0"
edition = "2021"
publish = false

[dependencies]
anyhow = "1"
clap = { version = "4", features = ["derive"] }
colored = "2"
libc = "0.2"
phper = "*"
rand = "0.8"
serde = { version = "1", features = ["derive"] }
tempfile = "3"
toml = "0.8"
walkdir = "2"
