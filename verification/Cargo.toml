[package]
name = "svd2html"
version = "0.1.0"
edition = "2021"
publish = false

[dependencies]
anyhow = "1"
clap = { version = "3", features = ["derive"] }
minijinja = { version = "0.15", features = ["source"] }
svd-parser = "0.13"
