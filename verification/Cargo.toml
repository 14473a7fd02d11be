[package]
name = "rounded_rect"
version = "0.1.0"
edition = "2021"
publish = false

[dependencies]
gl = "0.14"
glutin = "0.29"
piston-viewport = "*"
piston2d-graphics = "*"
piston2d-opengl_graphics = "*"
sdl2 = "*"
