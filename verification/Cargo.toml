[package]
name = "serde_edn"
version = "0.1.0"
edition = "2021"
publish = false

[dependencies]
edn = "*"
num-traits = "0.2"
ordered-float = "*"
serde = "1"
