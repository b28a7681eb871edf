[package]
name = "zyxt"
version = "0.1.0"
edition = "2021"
publish = false

[dependencies]
itertools = "=0.10.5"
clap = { version = "=4.6.7", features = ["derive"] }
color-eyre = "=0.6.5"
once_cell = "=1.21.4"
