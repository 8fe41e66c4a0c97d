[package]
name = "fixed_point_physics"
version = "0.1.0"
edition = "2021"
publish = false

[dependencies]
anyhow = "1"
thiserror = "*"
fps_counter = "*"
sdl2 = { version = "*", features = ["ttf"] }
