[package]
name = "runst"
version = "0.1.0"
edition = "2021"
publish = false

[dependencies]
chrono = "*"
clap = { version = "*", features = ["derive"] }
colorsys = "*"
dirs = "*"
humantime = "*"
log = "*"
serde = { version = "*", features = ["derive"] }
serde_json = "*"
tera = { version = "*", default-features = false }
toml = "*"
x11rb = { version = "*", features = ["allow-unsafe-code"] }
cairo-rs = { version = "*", features = ["xcb"] }
pango = "*"
pangocairo = "*"
