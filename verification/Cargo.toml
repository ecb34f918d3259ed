[package]
name = "damascene-volume"
version = "0.1.0"
edition = "2021"
publish = false

[dependencies]
anyhow = "1"
damascene-core = "=0.4.6"
damascene-wgpu = "=0.4.6"
pipewire = "=0.9.2"
pollster = "0.4"
rustfft = "=6.4.1"
rustix = { version = "1", features = ["process"] }
wgpu = "29"
winit = { version = "=0.30.13", default-features = false, features = ["rwh_06", "x11"] }
