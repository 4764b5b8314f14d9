[package]
name = "sccache"
version = "0.1.0"
edition = "2021"
publish = false

[dependencies]
zip = "=8.6.0"
ring = "=0.17.14"
toml = "=1.1.7"
serde = "=1.0.229"
serde_derive = "=1.0.229"
