[package]
name = "pixel_engine"
version = "0.1.0"
edition = "2021"
publish = false

[dependencies]
fontdue = "=0.9.4"
log = "*"
pixels = "=0.13.0"
simple_logger = "*"
winit = "=0.28.7"
