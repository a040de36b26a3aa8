[package]
name = "deltaforge"
version = "0.1.0"
edition = "2021"
publish = false

[dependencies]
anyhow = "=1.0.104"
clap = { version = "=4.6.7", features = ["derive"] }
serde = { version = "=1.0.229", features = ["derive"] }
serde_json = "=1.0.154"
serde_yaml = "=0.9.34"
toml = "=1.2.1"
fs2 = "=0.4.3"
getrandom = "=0.3.4"
time = { version = "=0.3.55", features = ["formatting"] }
cap-std = "3"
cap-fs-ext = "3"
