[package]
name = "krylov_eig"
version = "0.1.0"
edition = "2021"
publish = false

[dependencies]
ndarray = "0.13"
ndarray-rand = "0.11"
num-traits = "0.2"
