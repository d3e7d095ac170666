[package]
name = "rice_nn"
version = "0.1.0"
edition = "2021"
publish = false

[dependencies]
csv = "1"
ndarray = "0.15"
linfa = "0.7"
rand = "0.8"
