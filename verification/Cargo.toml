[package]
name = "gnworld"
version = "0.1.0"
edition = "2021"
publish = false

[dependencies]
noise = "0.9"
image = { version = "0.25", default-features = false, features = ["png"] }
gl = "0.14"
glium = "0.36"
sdl2 = "0.37"
cgmath = "0.18"
freetype-rs = "0.38"
