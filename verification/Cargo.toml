[package]
name = "navette-berreman"
version = "0.1.0"
edition = "2021"
publish = false

[dependencies]
num-complex = "0.4"
navette = "0.7.0"
ndarray = "0.15"
rayon = "1"
pyo3 = "*"
numpy = "*"
