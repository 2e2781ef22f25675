[package]
name = "ndjson"
version = "0.1.0"
edition = "2021"
publish = false

[dependencies]
atty = "0.2"
clap = { version = "3", features = ["derive"] }
serde_json = { version = "1", features = ["preserve_order"] }
termcolor = "1"
