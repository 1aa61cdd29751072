[package]
name = "nnvm"
version = "0.1.0"
edition = "2021"
publish = false

[dependencies]
gemm = "*"
rayon = "*"
ndarray-layout = "*"
digit-layout = "*"
