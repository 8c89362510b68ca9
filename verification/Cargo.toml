[package]
name = "iqm_viewer"
version = "0.1.0"
edition = "2021"
publish = false

[dependencies]
byteorder = "1"
cgmath = "0.18"
glium = "0.32"
