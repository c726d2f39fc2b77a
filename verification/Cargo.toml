[package]
name = "sdf"
version = "0.1.0"
edition = "2021"
publish = false

[dependencies]
bytemuck = "1"
cgmath = "0.18"
thiserror = "1"
wgpu = "0.20"
