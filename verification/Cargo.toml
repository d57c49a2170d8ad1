[package]
name = "voxelmap_render"
version = "0.1.0"
edition = "2021"
publish = false

[dependencies]
lodepng = "*"
docopt = "*"
serde = { version = "*", features = ["derive"] }
