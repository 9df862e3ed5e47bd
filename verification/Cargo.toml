[package]
name = "ellip"
version = "0.1.0"
edition = "2021"
publish = false

[dev-dependencies]
approx = "0.5"
