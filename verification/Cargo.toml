[package]
name = "picotool"
version = "0.1.0"
edition = "2021"
publish = false

[dependencies]
uf2-decode = "*"
nusb = "0.1"
async-io = "2"
futures-lite = "2"
clap = { version = "4", features = ["derive"] }
camino = "*"
