[package]
name = "rstorch"
version = "0.1.0"
edition = "2021"
publish = false

[dependencies]
rand = "0.8"
rand_distr = "0.4"
cudarc = { version = "0.17", default-features = false, features = ["std", "driver", "nvrtc", "cuda-12060", "dynamic-loading"] }
