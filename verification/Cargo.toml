[package]
name = "heightfield"
version = "0.1.0"
edition = "2021"
publish = false

[dependencies]
noise = "*"
rand = "*"
image = { version = "*", default-features = false, features = ["png"] }
