[package]
name = "kalman"
version = "0.1.0"
edition = "2021"
publish = false

[dependencies]
anyhow = "=1.0.104"
env_logger = "=0.11.11"
nalgebra = "=0.35.0"
nalgebra-rand-mvn = "=0.3.1"

[dev-dependencies]
rulinalg = "=0.4.2"
