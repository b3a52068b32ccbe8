[package]
name = "stonehold"
version = "0.1.0"
edition = "2021"
publish = false

[dependencies]
anyhow = "1"
futures = "0.3"
macroquad = { version = "0.4", default-features = false }
macroquad-tiled = "0.2"
nalgebra = "*"
rapier2d = "*"
