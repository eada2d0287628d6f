[package]
name = "termglyph"
version = "0.1.0"
edition = "2021"
publish = false

[dependencies]
rustybuzz = "0.20"
freetype-rs = "0.38"
glow = "0.16"
glutin = "0.32"
glutin-winit = "0.5"
winit = "0.30"
bytemuck = "1"
bitflags = "2"
