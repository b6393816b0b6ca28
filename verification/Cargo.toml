[package]
name = "tasks"
version = "0.1.0"
edition = "2021"
publish = false

[dependencies]
bincode2 = "2"
clap = { version = "4", features = ["derive"] }
flate2 = "1"
home = "0.5"
serde = { version = "1", features = ["derive"] }
tempfile = "3"
