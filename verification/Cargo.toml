[package]
name = "kye"
version = "0.1.0"
edition = "2021"
publish = false

[dependencies]
device_query = "*"
sdl2 = { version = "*", features = ["ttf", "unsafe_textures"] }
serde = { version = "1", features = ["derive"] }
serde_yaml = "*"
