[package]
name = "mdsim"
version = "0.1.0"
edition = "2021"
publish = false

[dependencies]
embedded-graphics-core = "*"
line_drawing = "*"
minifb = "*"
nalgebra = "*"
