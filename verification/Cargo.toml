[package]
name = "patchtoy"
version = "0.1.0"
edition = "2021"
publish = false

[dependencies]
anyhow = "1"
clap = { version = "3", features = ["derive"] }
log = "0.4"
peeking_take_while = "1"
