[package]
name = "marrakesh"
version = "0.1.0"
edition = "2021"
publish = false

[dependencies]
rand = "0.8"
rand_distr = "0.4"
inventory = "0.3"
plotters = "0.3"
