[package]
name = "polars"
version = "0.1.0"
edition = "2021"
publish = false

[dependencies]
ahash = "=0.8.12"
arrow = { version = "=60.0.0", default-features = false }
chrono = { version = "=0.4.45", default-features = false, features = ["std"] }
fnv = "=1.0.7"
hashbrown = "=0.17.1"
itertools = "=0.15.0"
ndarray = "=0.17.2"
num = "=0.4.3"
num_cpus = "=1.17.0"
prettytable-rs = "=0.10.0"
pyo3 = { version = "*", features = ["abi3-py310"] }
rayon = "=1.12.0"
thiserror = "=2.0.21"
