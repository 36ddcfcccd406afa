[package]
name = "onilang"
version = "0.1.0"
edition = "2021"
publish = false

[dependencies]
lasso = "*"
rustc_apfloat = "*"
logos = "*"
clap = { version = "*", features = ["derive"] }
