[package]
name = "detox"
version = "0.1.0"
edition = "2021"
publish = false

[dependencies]
anyhow = "1"
path-clean = "*"
structopt = "0.3"
