[package]
name = "x4_variants"
version = "0.1.0"
edition = "2021"
publish = false

[dependencies]
rand = "0.7"
regex = "1"
serde = { version = "1", features = ["derive"] }
serde-xml-rs = "*"
toml = "0.5"
