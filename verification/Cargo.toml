[package]
name = "dictatord"
version = "0.1.0"
edition = "2021"
publish = false

[dependencies]
anyhow = "1"
log = "0.4"
env_logger = "*"
clap = { version = "4", features = ["derive"] }
serde = { version = "1", features = ["derive"] }
serde_json = "1"
toml = "*"
dirs = "*"
inquire = "*"
cpal = "*"
sonora-ns = "*"
whisper-rs = "*"
x11 = { version = "2", features = ["xlib"] }
libxdo = "*"
gtk = "0.18"
glib = "0.18"
cairo-rs = "0.18"
