[package]
name = "nmodes"
version = "0.1.0"
edition = "2021"
publish = false

[dependencies]
anyhow = "*"
bytemuck = "=1.25.2"
chrono = "*"
clap = "*"
csv = "*"
env_logger = "*"
log = "*"
nalgebra = "=0.35.0"
rand = "=0.8.8"
rand_distr = "=0.4.3"
serde = { version = "*", features = ["derive"] }
serde_json = "*"
thiserror = "*"
