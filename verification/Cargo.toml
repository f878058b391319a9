[package]
name = "pats"
version = "0.1.0"
edition = "2021"
publish = false

[dependencies]
cap = "=0.1.2"
chrono = { version = "=0.4.45", features = ["serde"] }
csv = "=1.4.0"
eccodes = "=0.6.9"
env_logger = "=0.11.11"
float-cmp = "=0.9.0"
floccus = { version = "=0.3.7", features = ["double_precision"] }
indicatif = "=0.17.11"
log = "=0.4.34"
nalgebra = "=0.32.6"
ndarray = "=0.15.6"
rayon = "=1.12.0"
rustc-hash = "=1.1.0"
serde = { version = "=1.0.229", features = ["derive"] }
serde_yaml = "=0.8.26"
thiserror = "=1.0.69"
