[package]
name = "ifc_analyzer"
version = "0.1.0"
edition = "2021"
publish = false

[dependencies]
pyo3 = "*"
rayon = "*"
serde = { version = "*", features = ["derive"] }
