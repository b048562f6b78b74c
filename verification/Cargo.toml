[package]
name = "pycomfy"
version = "0.1.0"
edition = "2021"
publish = false

[dependencies]
unicode-width = "*"
pyo3 = { version = "0.20", features = ["extension-module"] }

[dev-dependencies]
comfy-table = { version = "7", default-features = false }
