[package]
name = "ray_tracing"
version = "0.1.0"
edition = "2021"
publish = false

[dependencies]
image = { version = "0.24", default-features = false, features = ["png"] }
rand = "0.8"
threadpool = "1"
