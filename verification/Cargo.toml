[package]
name = "evmhost"
version = "0.1.0"
edition = "2021"
publish = false

[dependencies]
hex = "=0.4.3"
clap = "=2.34.0"
serde = { version = "=1.0.229", features = ["derive"] }
serde_json = "=1.0.151"
ethabi = "=18.0.0"
