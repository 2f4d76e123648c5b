[package]
name = "chat_completions"
version = "0.1.0"
edition = "2021"
publish = false

[dependencies]
a2httpc = { version = "=0.30.0", features = ["charsets", "json"] }
either = "=1.19.0"
log = "=0.4.34"
serde = { version = "=1.0.229", features = ["derive"] }
serde_json = "=1.0.154"
