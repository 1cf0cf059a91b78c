[package]
name = "voxel_terrain"
version = "0.1.0"
edition = "2021"
publish = false

[dependencies]
bytemuck = { version = "1", features = ["derive"] }
cgmath = "0.18"
env_logger = "0.9"
log = "0.4"
noise = "0.7"
num-traits = "0.2"
strum = { version = "0.24", features = ["derive"] }
wgpu = "0.12"
winit = "0.26"
