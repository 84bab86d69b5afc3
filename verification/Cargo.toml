[package]
name = "simulabra"
version = "0.1.0"
edition = "2021"
publish = false

[dependencies]
chumsky = "=0.9.3"
clap = { version = "=4.6.7", features = ["derive"] }
pyo3 = "=0.20.3"

[dev-dependencies]
nom = "=7.1.3"
