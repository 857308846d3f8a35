[package]
name = "rung"
version = "0.1.0"
edition = "2021"
publish = false

[dependencies]
actix-files = "*"
actix-web = "*"
anyhow = "*"
clap = { version = "*", features = ["derive"] }
jsonschema = "*"
log = "*"
serde = { version = "*", features = ["derive"] }
serde_json = "*"
webbrowser = "*"
