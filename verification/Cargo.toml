[package]
name = "voxel_demo"
version = "0.1.0"
edition = "2021"
publish = false

[dependencies]
rand = "0.8"
num = "0.4"
ascii = "1.1"
sdl2 = "0.38"
