[package]
name = "map_generator"
version = "0.1.0"
edition = "2021"
publish = false

[dependencies]
nalgebra-glm = "*"
spade = "2"
bracket-noise = "*"
rand = "0.8"
