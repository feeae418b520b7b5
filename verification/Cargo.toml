[package]
name = "hopf_sta_viz"
version = "0.1.0"
edition = "2021"
publish = false

[dependencies]
bytemuck = { version = "1", features = ["derive"] }
wgpu = "22"
winit = { version = "0.30", default-features = false, features = ["rwh_06", "x11"] }
egui = "0.29"
egui-wgpu = "0.29"
egui-winit = { version = "0.29", default-features = false, features = ["x11"] }
glam = "0.29"
rayon = "1"
pollster = "0.3"
env_logger = { version = "0.11", default-features = false }
log = "0.4"
web-time = "1"
