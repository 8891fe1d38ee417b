[package]
name = "service_stack"
version = "0.1.0"
edition = "2021"
publish = false

[dependencies]
rand = "0.9"
rootcause = "*"
tokio = { version = "1", features = ["rt", "rt-multi-thread", "sync", "time"] }
tower = "*"
