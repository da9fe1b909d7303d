[package]
name = "arena"
version = "0.1.0"
edition = "2021"
publish = false

[dependencies]
nalgebra = "=0.30.1"
ncollide2d = "=0.33.0"
glutin = "=0.24.1"

[dev-dependencies]
legion = "=0.2.4"
