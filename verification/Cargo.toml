[package]
name = "hwisak_rs"
version = "0.1.0"
edition = "2021"
publish = false

[dependencies]
rusqlite = { version = "*", features = ["bundled"] }
sysinfo = "*"
os_info = "*"
wgpu = "*"
log = "*"
env_logger = "*"
