[package]
name = "rand_distr"
version = "0.2.2"
edition = "2021"
publish = false

[dependencies]
rand = "0.7"
