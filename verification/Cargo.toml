[package]
name = "stl_thumb"
version = "0.1.0"
edition = "2021"
publish = false

[dependencies]
cgmath = "*"
glium = "*"
image = "*"
log = "*"
mint = "*"
