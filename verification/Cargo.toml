[package]
name = "auton"
version = "0.1.0"
edition = "2021"
publish = false

[dependencies]
rand = "0.8"
palette = { version = "0.5", default-features = false, features = ["std"] }
image = { version = "0.23", default-features = false, features = ["png"] }
