[package]
name = "ann_harness"
version = "0.1.0"
edition = "2021"
publish = false

[dependencies]
abd-clam = "=0.22.6"
distances = "*"
rayon = "=1.12.0"
serde = { version = "=1.0.229", features = ["derive"] }
serde_json = "=1.0.154"
