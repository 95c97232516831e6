[package]
name = "vraw_convert"
version = "0.1.0"
edition = "2021"
publish = false

[dependencies]
chrono = { version = "0.4", default-features = false, features = ["clock"] }
mp4 = "0.14"
zerocopy = "0.7"
