[package]
name = "trade_flows"
version = "0.1.0"
edition = "2021"
publish = false

[dependencies]
polars = { version = "=0.45.1", default-features = false, features = ["csv", "lazy"] }
pyo3 = "=0.20.3"
