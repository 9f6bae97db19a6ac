[package]
name = "minesweeper_core"
version = "0.1.0"
edition = "2021"
publish = false

[dependencies]
rand = { version = "0.8", features = ["small_rng"] }
num_cpus = "1"
num-integer = "0.1"
