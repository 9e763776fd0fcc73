[package]
name = "simon_says_seeq_rust"
version = "0.1.0"
edition = "2021"
publish = false

[dependencies]
anyhow = "1"
log = "0.4"
env_logger = "*"
serde = { version = "1", features = ["derive"] }
serde_json = "1"
toml = "*"
crossbeam-channel = "0.5"
chrono = "0.4"
ctrlc = "*"
dirs = "*"
rosc = "*"
midir = "*"
evdev = "*"
framebuffer = "*"
serialport = "*"
