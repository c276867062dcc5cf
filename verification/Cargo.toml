[package]
name = "euler_curves"
version = "0.1.0"
edition = "2021"
publish = false

[dependencies]
rayon = "1"
plotters = "0.3"
