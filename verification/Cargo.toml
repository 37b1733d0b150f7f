[package]
name = "nhpylm"
version = "0.1.0"
edition = "2021"
publish = false

[dependencies]
rand = "0.6"
either = "1"
ndarray = "0.15"
statrs = "0.16"
regex = "1"
getopts = "0.2"
