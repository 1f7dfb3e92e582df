[package]
name = "now_playing"
version = "0.1.0"
edition = "2021"
publish = false

[dependencies]
unicode-width = "=0.2.2"
dbus = { version = "=0.9.12", features = ["vendored"] }
