[package]
name = "pixel_ui"
version = "0.1.0"
edition = "2021"
publish = false

[dependencies]
slotmap = "1"
winit = "0.30"
softbuffer = "0.4"
timer = "0.2"
chrono = "0.4"
