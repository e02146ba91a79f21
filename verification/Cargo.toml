[package]
name = "fairshare"
version = "0.1.0"
edition = "2021"
publish = false

[dependencies]
users = "*"
clap = { version = "*", features = ["derive"] }
serde = { version = "*", features = ["derive"] }
serde_json = "*"
serde_yaml = "*"
toml = "*"
sysinfo = "*"
chrono = "*"
fs2 = "*"
libc = "*"
colored = "*"
comfy-table = "*"
