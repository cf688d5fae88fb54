[package]
name = "arcade"
version = "0.1.0"
edition = "2021"
publish = false

[dependencies]
rand = "0.3"
time = "0.1"
sdl2 = { version = "*", features = ["image", "ttf", "mixer", "unsafe_textures"] }
