[package]
name = "pact_core"
version = "0.1.0"
edition = "2021"
publish = false

[dependencies]
regex = "=1.13.1"
rand = "=0.8.8"
chrono = "=0.4.45"
serde_json = "=1.0.151"
rand_regex = "=0.17.0"
