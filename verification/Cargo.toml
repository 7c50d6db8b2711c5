[package]
name = "capture_canvas"
version = "0.1.0"
edition = "2021"
publish = false

[dependencies]
wgpu = { version = "0.20", default-features = false, features = ["wgsl"] }
tokio = { version = "1", features = ["rt-multi-thread"] }
bytemuck = "1"
log = "0.4"
