[package]
name = "console_backend"
version = "0.1.0"
edition = "2021"
publish = false

[dependencies]
rand = "=0.7.3"
num = "=0.2.1"
image = "=0.22.5"
rusttype = "=0.8.3"
gl = "=0.14.0"
glutin = "=0.22.1"
nalgebra = "=0.18.1"
nalgebra-glm = "=0.4.2"
failure = "=0.1.8"
