[package]
name = "mesh_renderer"
version = "0.1.0"
edition = "2021"
publish = false

[dependencies]
wgpu = "*"
winit = "*"
glam = { version = "*", features = ["bytemuck"] }
bytemuck = { version = "*", features = ["derive"] }
pollster = "*"
anyhow = "*"
tracing = "*"
tracing-subscriber = { version = "*", features = ["env-filter"] }
