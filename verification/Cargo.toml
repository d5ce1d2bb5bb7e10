[package]
name = "bad"
version = "0.1.0"
edition = "2021"
publish = false

[dependencies]
bumpalo = "3"
clap = { version = "4", features = ["derive"] }
logos = "0.12"
