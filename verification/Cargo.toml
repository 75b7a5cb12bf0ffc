[package]
name = "glasses"
version = "0.1.0"
edition = "2021"
publish = false

[dependencies]
snap = "1"
ffmpeg-next = "7"
wgpu = "22"
winit = "0.30"
pollster = "0.3"
bytemuck = "1"
clap = { version = "4", features = ["derive"] }
