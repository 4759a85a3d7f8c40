[package]
name = "rnake"
version = "0.1.0"
edition = "2021"
publish = false

[dependencies]
rand = "=0.8.8"
sdl2 = { version = "=0.37.0", features = ["ttf"] }
