[package]
name = "grandma_launcher"
version = "0.1.0"
edition = "2021"
publish = false

[dependencies]
evdev = "0.13"
file-rotate = "0.7"
fontdue = "0.9"
image = { version = "0.25", default-features = false, features = ["png"] }
libc = "0.2"
log = "0.4"
serde = { version = "1", features = ["derive"] }
serde_json = "1"
simplelog = "0.12"
tiny_http = "0.12"
