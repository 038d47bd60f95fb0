[package]
name = "change_point_algorithms"
version = "0.1.0"
edition = "2021"
publish = false

[dependencies]
pyo3 = "*"
libm = "*"
