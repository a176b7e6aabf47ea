[package]
name = "microwave"
version = "0.1.0"
edition = "2021"
publish = false

[dependencies]
clap = { version = "4", features = ["derive"] }
ringbuf = "0.2"
serde = { version = "1", features = ["derive"] }
serde_yaml = "0.9"
