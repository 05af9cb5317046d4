[package]
name = "apob"
version = "0.1.0"
edition = "2021"
publish = false

[dependencies]
anyhow = "1"
clap = { version = "4", features = ["derive"] }
ratatui = "0.29"
strum = { version = "0.26", features = ["derive"] }
zerocopy = "0.8"
