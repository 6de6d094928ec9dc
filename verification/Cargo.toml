[package]
name = "p2p"
version = "0.1.0"
edition = "2021"
publish = false

[dependencies]
bytes = "1"
tokio = { version = "1", features = ["full"] }
futures = "0.3"
tentacle-secio = "*"
