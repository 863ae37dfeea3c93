[package]
name = "nex"
version = "0.1.0"
edition = "2021"
publish = false

[dependencies]
clap = { version = "=4.5.23", features = ["derive"] }
