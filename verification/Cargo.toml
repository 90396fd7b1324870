[package]
name = "coax-actor"
version = "0.1.0"
edition = "2021"
publish = false

[dependencies]
chrono = "=0.4.45"
cookie = { version = "0.7", default-features = false }
url = "=1.7.2"
