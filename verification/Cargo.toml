[package]
name = "rusty_uxn"
version = "0.1.0"
edition = "2021"
publish = false

[dependencies]
chrono = "=0.4.45"
clap = { version = "=3.2.25", features = ["derive"] }
image = { version = "0.24", default-features = false, features = ["png"] }
speedy2d = "1"
