[package]
name = "neocogi"
version = "0.1.0"
edition = "2021"
publish = false

[dependencies]
rs-math3d = "*"
rs-ctypes = "*"
gl = "*"
glfw = { version = "*", default-features = false }
bitflags = "1"
