[package]
name = "dist_tracing"
version = "0.1.0"
edition = "2021"
publish = false

[dependencies]
chrono = "0.4"
rand = "0.8"
sha1 = "0.10"
tracing = "0.1"
tracing-subscriber = "0.3"
