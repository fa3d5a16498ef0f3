[package]
name = "rpad"
version = "0.1.0"
edition = "2021"
publish = false

[dependencies]
eframe = { version = "=0.36.2", default-features = false, features = ["glow", "default_fonts", "x11"] }
rfd = "=0.17.2"
serde = { version = "=1.0.229", features = ["derive"] }
serde_json = "*"
