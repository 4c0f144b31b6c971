[package]
name = "rue-air"
version = "0.1.0"
edition = "2021"
publish = false

[dependencies]
lasso = { version = "0.7", features = ["multi-threaded"] }
rayon = "1"
