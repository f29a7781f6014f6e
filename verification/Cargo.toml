[package]
name = "swarm_arena"
version = "0.1.0"
edition = "2021"
publish = false

[dependencies]
swarm_it = "=0.1.1"
piston_window = "*"
gfx_device_gl = "*"
piston-gfx_texture = "*"
