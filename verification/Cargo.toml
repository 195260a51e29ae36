[package]
name = "pc_fourier"
version = "0.1.0"
edition = "2021"
publish = false

[dependencies]
ndarray = "0.16"
num-complex = "0.4"
nalgebra = { version = "*", default-features = false, features = ["std"] }
