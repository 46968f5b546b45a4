[package]
name = "raytracker"
version = "0.1.0"
edition = "2021"
publish = false

[dependencies]
image = { version = "0.25", default-features = false, features = ["png"] }
rand = { version = "0.9", features = ["small_rng"] }
rayon = "1"
