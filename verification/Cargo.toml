[package]
name = "terrain_erosion"
version = "0.1.0"
edition = "2021"
publish = false

[dependencies]
fastlem = "=0.1.4"
image = { version = "=0.24.9", default-features = false }
imageproc = { version = "=0.23.1", default-features = false }
map-range = "*"
noise = { version = "=0.8.2", features = ["images"] }
terrain-graph = "=1.0.1"
