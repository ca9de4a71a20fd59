[package]
name = "imgcache"
version = "0.1.0"
edition = "2021"
publish = false

[dependencies]
image = "*"
image_hasher = "*"
rand = "*"
reqwest = { version = "*", default-features = false, features = ["blocking"] }
