[package]
name = "reimg"
version = "0.1.0"
edition = "2021"
publish = false

[dependencies]
aho-corasick = "1"
camino = "1"
anyhow = "1"
clap = { version = "4", features = ["derive"] }
ignore = "0.4"
image = { version = "0.25", default-features = false, features = ["png", "jpeg", "webp"] }
ravif = { version = "0.11", default-features = false }
rayon = "1"
rgb = "0.8"
webp = "0.3"
