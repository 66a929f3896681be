[package]
name = "three"
version = "0.1.0"
edition = "2021"
publish = false

[dependencies]
froggy = "0.4"
cgmath = "0.15"
gfx = "0.18"
gfx_device_gl = "0.16"
gfx_window_glutin = "0.31"
glutin = "0.21"
winit = "0.19"
