[package]
name = "rublas"
version = "0.1.0"
edition = "2021"
publish = false

[dependencies]
bytemuck = "1"
gemm = "0.19"
half = "2"
rayon = "1"
