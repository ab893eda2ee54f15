[package]
name = "psync"
version = "0.1.0"
edition = "2021"
publish = false

[dependencies]
anyhow = "*"
os_type = "*"
serde = "*"
serde_derive = "*"
toml = "*"
xdg = "*"
