[package]
name = "seimas_ingest"
version = "0.1.0"
edition = "2021"
publish = false

[dependencies]
xml-rs = "*"
chrono = "*"
reqwest = { version = "*", default-features = false }
tokio = { version = "*", features = ["rt-multi-thread", "macros"] }
