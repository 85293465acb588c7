[package]
name = "rendezvous"
version = "0.1.0"
edition = "2021"
publish = false

[dependencies]
url = "2"
rand = "0.9"
hyper = "0.12"
futures = "0.1"
futures-timer = "0.1"
serde = "1"
serde_derive = "1"
toml = "0.8"
