[package]
name = "headsup_analyzer"
version = "1.0.0"
edition = "2021"
publish = false

[dependencies]
anyhow = "=1.0.104"
clap = { version = "=4.6.7", features = ["derive"] }
itertools = "=0.15.0"
rs_poker = { version = "=2.0.0", default-features = false }
rust_poker = "=0.1.14"
serde = { version = "=1.0.229", features = ["derive"] }
serde_json = "=1.0.154"
