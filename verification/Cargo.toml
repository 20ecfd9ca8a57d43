[package]
name = "thorinpi"
version = "0.1.0"
edition = "2021"
publish = false

[dependencies]
env_logger = "*"
getopts = "*"
log = "*"
rppal = "*"
reqwest = { version = "*", default-features = false, features = ["blocking"] }
serde = { version = "*", features = ["derive"] }
tiny_http = "*"
toml = "*"
