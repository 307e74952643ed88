[package]
name = "hooch"
version = "0.1.0"
edition = "2021"
publish = false

[dependencies]
dashmap = "6"
mio = { version = "1", features = ["os-poll", "net"] }
