[package]
name = "opengl_guap"
version = "0.1.0"
edition = "2021"
publish = false

[dependencies]
font8x8 = "0.3"
cgmath = "0.18"
hecs = "0.10"
gl = "0.14"
winit = "0.30"
glutin = "0.32"
glutin-winit = "0.5"
raw-window-handle = "0.6"
