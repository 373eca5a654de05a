[package]
name = "genix"
version = "0.1.0"
edition = "2021"
publish = false

[dependencies]
rand = "0.8"
base64 = "0.22"
clap = { version = "4", features = ["derive"] }
arboard = "3"
