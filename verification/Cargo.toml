[package]
name = "nasl_interpreter"
version = "0.1.0"
edition = "2021"
publish = false

[dependencies]
rocket = "0.5"
serde = { version = "1", features = ["derive"] }
serde_json = "1"
