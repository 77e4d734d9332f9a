[package]
name = "evosnake"
version = "0.1.0"
edition = "2021"
publish = false

[dependencies]
rand = "0.8"
rand_distr = "0.4"
rayon = "1"
dfdx = "0.13"
console_engine = "2"
