[package]
name = "load_balancer"
version = "0.1.0"
edition = "2021"
publish = false

[dependencies]
sha2 = "0.10"
tracing = "0.1"
tracing-subscriber = "0.3"
