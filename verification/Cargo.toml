[package]
name = "eileda"
version = "0.1.0"
edition = "2021"
publish = false

[dependencies]
markdown = "=1.0.0"
sdl2 = { version = "=0.38.0", features = ["image"] }
