[package]
name = "vectorwave_core"
version = "0.1.0"
edition = "2021"
publish = false

[dependencies]
crossbeam-channel = "0.5"
pyo3 = { version = "0.20", features = ["extension-module", "abi3-py37"] }
