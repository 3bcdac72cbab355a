[package]
name = "boids"
version = "0.1.0"
edition = "2021"
publish = false

[dependencies]
cgmath = "0.18"
glium = "0.30"
hashbrown = "0.15"
itertools = "0.10"
rand = "0.8"
rayon = "1"
vecmath = "1.0"
