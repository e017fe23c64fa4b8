[package]
name = "template_command"
version = "0.1.0"
edition = "2021"
publish = false

[dependencies]
chrono = "0.4"
whoami = "1"
serde = { version = "1", features = ["derive"] }
serde_json = "1"
clap = "2"
colored = "2"
log = "0.4"
