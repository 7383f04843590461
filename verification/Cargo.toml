[package]
name = "render_core"
version = "0.1.0"
edition = "2021"
publish = false

[dependencies]
wgpu = "0.6"
cgmath = "0.17"
failure = "0.1"
shaderc = "0.6"
