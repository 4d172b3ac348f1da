[package]
name = "plump_apps"
version = "0.1.0"
edition = "2021"
publish = false

[dependencies]
log = "0.4"
embedded-graphics = "0.8"
embassy-time = { version = "0.5", features = ["std"] }
