[package]
name = "combiner"
version = "0.1.0"
edition = "2021"
publish = false

[dependencies]
anyhow = "1"
ignore = "0.4"
prettytable-rs = "0.10"
rayon = "1"
structopt = "0.3"
thiserror = "1"
tiktoken-rs = "*"
