[package]
name = "ray_tracer"
version = "0.1.0"
edition = "2021"
publish = false

[dependencies]
rand = { version = "0.8.5", features = ["small_rng"] }
rayon = "1"
indicatif = { version = "0.17", features = ["rayon"] }
