[package]
name = "convtrain"
version = "0.1.0"
edition = "2021"
publish = false

[dependencies]
burn = { version = "=0.13.2", default-features = false, features = ["ndarray", "autodiff", "std"] }
bincode = "=2.0.0-rc.3"
clap = { version = "=4.6.7", features = ["derive"] }
rand = "=0.8.8"
