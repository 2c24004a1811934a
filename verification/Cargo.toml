[package]
name = "herang"
version = "0.5.0"
edition = "2021"
publish = false

[dependencies]
nom = "7"
dyn-clone = "1"
clap = { version = "4", features = ["derive"] }
