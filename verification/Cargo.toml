[package]
name = "we_layerd"
version = "0.1.0"
edition = "2021"
publish = false

[dependencies]
anyhow = "=1.0.104"
clap = { version = "=4.5.61", features = ["derive"] }
ctrlc = "=3.4.7"
libc = "=0.2.191"
serde = { version = "=1.0.229", features = ["derive"] }
serde_json = "=1.0.154"
toml = "=0.8.23"
zbus = "=6.2.1"
wayland-client = "0.31"
