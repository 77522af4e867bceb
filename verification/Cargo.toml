[package]
name = "pdf_analyzer"
version = "0.1.0"
edition = "2021"
publish = false

[dependencies]
lopdf = "*"
serde = { version = "*", features = ["derive"] }
serde_json = "*"
