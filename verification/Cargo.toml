[package]
name = "manifest_rewrite"
version = "0.1.0"
edition = "2021"
publish = false

[dependencies]
config = { version = "=0.11.0", default-features = false, features = ["toml"] }
fastly = "=0.7.3"
m3u8-rs = "=1.0.8"
