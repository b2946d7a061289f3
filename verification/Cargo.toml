[package]
name = "falling_notes"
version = "0.1.0"
edition = "2021"
publish = false

[dependencies]
bytemuck = { version = "1", features = ["derive"] }
log = "0.4"
midir = "0.7"
wgpu = "0.7"
wgpu_glyph = "0.11"
winit = "0.24"
