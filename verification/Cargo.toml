[package]
name = "ares"
version = "0.1.0"
edition = "2021"
publish = false

[dependencies]
taffy = "0.5"
fontdue = "*"
calloop = "*"
calloop-wayland-source = "*"
memfd = "*"
wayland-client = "*"
wayland-protocols = { version = "*", features = ["client"] }
x11rb = { version = "*", features = ["allow-unsafe-code"] }
