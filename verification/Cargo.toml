[package]
name = "chip8"
version = "0.1.0"
edition = "2021"
publish = false

[dependencies]
rand = "0.8"
rand_distr = "0.4"
winit = { version = "0.29", default-features = false, features = ["rwh_06", "x11"] }
pollster = "0.3"
