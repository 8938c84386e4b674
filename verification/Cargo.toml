[package]
name = "archive_export"
version = "0.1.0"
edition = "2021"
publish = false

[dependencies]
serde = { version = "1", features = ["derive"] }
zip = { version = "2", default-features = false }
