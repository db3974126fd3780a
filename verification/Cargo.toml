[package]
name = "wurth-calypso"
version = "0.1.0"
edition = "2021"
publish = false

[dependencies]
atat = "0.20"
heapless = "0.7"
