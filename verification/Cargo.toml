[package]
name = "colony_merge"
version = "0.1.0"
edition = "2021"
publish = false

[dependencies]
chrono = "*"
clap = "*"
csv = "*"
rustc-serialize = "*"
