[package]
name = "bins"
version = "0.1.0"
edition = "2021"
publish = false

[dependencies]
url = "1"
linked-hash-map = "0.5"
hyper = "0.10"
clap = "2"
toml = "0.2"
rustc-serialize = "0.3"
rand = "0.3"
