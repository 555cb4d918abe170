[package]
name = "mgs2smf"
version = "0.1.0"
edition = "2021"
publish = false

[dependencies]
encoding_rs = "0.8"
serde_yaml = "0.9"
