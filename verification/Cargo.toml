[package]
name = "ccsplit"
version = "0.1.0"
edition = "2021"
publish = false

[dependencies]
regex = "1"
chrono = "0.4"
rusqlite = { version = "*", features = ["bundled"] }
clap = { version = "4", features = ["derive"] }
console = "*"
