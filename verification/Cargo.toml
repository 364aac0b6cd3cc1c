[package]
name = "retimestamp"
version = "0.1.0"
edition = "2021"
publish = false

[dependencies]
chrono = "0.4"
clap = "2"
git2 = { version = "*", default-features = false }
regex = "1"
