[package]
name = "tracc"
version = "0.1.0"
edition = "2021"
publish = false

[dependencies]
itertools = "0.8"
regex = "1"
serde = { version = "1", features = ["derive"] }
serde_json = "1"
termion = "1.5"
time = { version = "0.2", features = ["serde"] }
tui = "0.8"
