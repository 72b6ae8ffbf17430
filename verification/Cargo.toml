[package]
name = "crawler"
version = "0.1.0"
edition = "2021"
publish = false

[dependencies]
url = "2"
html5ever = "0.26"
async-std = "1"
surf = { version = "2", default-features = false, features = ["h1-client-rustls"] }
