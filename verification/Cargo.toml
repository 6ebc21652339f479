[package]
name = "pool"
version = "0.1.0"
edition = "2021"
publish = false

[dependencies]
cast = { version = "=0.3.0", default-features = false }
soroban-fixed-point-math = "=1.5.0"
soroban-sdk = "=25.3.2"

[dev-dependencies]
soroban-sdk = { version = "=25.3.2", features = ["testutils"] }
