[package]
name = "folkfriend"
version = "3.0.0"
edition = "2021"
publish = false

[dependencies]
clap = "=3.2.25"
indicatif = "=0.17.11"
rayon = "=1.12.0"
serde = { version = "1", features = ["derive"] }
serde_json = "1"
wav = "=1.0.1"
