[package]
name = "rydde"
version = "0.1.0"
edition = "2021"
publish = false

[dependencies]
anyhow = "1"
blake2 = "0.9"
chrono = { version = "0.4", default-features = false, features = ["std"] }
clap = "2"
globset = "0.4"
hex = "0.4"
indicatif = "0.17"
kamadak-exif = "0.5"
rayon = "1"
walkdir = "2"
