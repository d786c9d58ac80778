[package]
name = "aabb_physics"
version = "0.1.0"
edition = "2021"
publish = false

[dependencies]
nalgebra-glm = "*"
once_cell = "*"
