[package]
name = "amplitude_content"
version = "0.1.0"
edition = "2021"
publish = false

[dependencies]
pulldown-cmark = "*"
toml = "*"
notify = "*"
clap = { version = "*", features = ["derive"] }
