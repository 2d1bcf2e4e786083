[package]
name = "wordle"
version = "0.1.0"
edition = "2021"
publish = false

[dependencies]
rand = "0.8"
clap = { version = "3.2", features = ["derive"] }
colored = "2"
error-chain = { version = "0.12", default-features = false }
