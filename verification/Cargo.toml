[package]
name = "mandelbrot"
version = "0.1.0"
edition = "2021"
publish = false

[dependencies]
anyhow = "1"
bytemuck = { version = "1", features = ["derive"] }
log = "0.4"
pollster = "0.2"
pretty_env_logger = "0.4"
raw-window-handle = "0.3"
wgpu = "0.11"
winit = "0.25"
x11-dl = "2"
