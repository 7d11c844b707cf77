[package]
name = "ray_tracing"
version = "0.1.0"
edition = "2021"
publish = false

[dependencies]
rand = "0.9"
rayon = "1"
indicatif = "0.17"
image = { version = "0.25", default-features = false, features = ["png"] }
