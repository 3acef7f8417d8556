[package]
name = "raytracer"
version = "0.1.0"
edition = "2021"
publish = false

[dependencies]
rand = "0.7"
num = "0.4"
rayon = "1"
indicatif = "0.15"
