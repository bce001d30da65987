[package]
name = "plonk_gates"
version = "0.1.0"
edition = "2021"
publish = false

[dependencies]
ark-ff = "0.4"
ark-poly = "0.4"
ark-test-curves = { version = "0.4", default-features = false, features = ["bls12_381_curve"] }
