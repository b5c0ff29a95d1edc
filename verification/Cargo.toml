[package]
name = "photo_catalog"
version = "0.1.0"
edition = "2021"
publish = false

[dependencies]
glob = "*"
image = "*"
kamadak-exif = "*"
serde = "*"
serde_derive = "*"
serde_json = "*"
