[package]
name = "x2arrow"
version = "0.1.0"
edition = "2021"
publish = false

[dependencies]
chrono = "=0.4.45"
arrow = "=60.0.0"
calamine = { version = "=0.36.1", features = ["dates"] }
clap = { version = "=4.6.7", features = ["derive"] }
