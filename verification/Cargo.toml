[package]
name = "scene_rt"
version = "0.1.0"
edition = "2021"
publish = false

[dependencies]
glam = "*"
tobj = "*"
wgpu = "*"
winit = "*"
pollster = "*"
env_logger = "*"
bytemuck = "*"
