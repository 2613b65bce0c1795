[package]
name = "fj_kernel"
version = "0.1.0"
edition = "2021"
publish = false

[dependencies]
itertools = "*"
iter_fixed = "*"
thiserror = "*"
tracing = "*"
nalgebra = "*"
