[package]
name = "dirdedup"
version = "0.1.0"
edition = "2021"
publish = false

[dependencies]
junk = "*"
walkdir = "2"
clap = { version = "4", features = ["derive"] }
dialoguer = "0.11"
