[package]
name = "wings"
version = "0.1.0"
edition = "2021"
publish = false

[dependencies]
apache-avro = "*"
clap = { version = "4", features = ["derive"] }
csv = "1"
dirs = "*"
pad = "0.1"
rayon = "1"
serde = { version = "1", features = ["derive"] }
serde_json = "1"
serde_yaml = "0.9"
simple_logger = "*"
sqlite = "*"
tokio = { version = "1", features = ["rt", "rt-multi-thread"] }
walkdir = "2"
