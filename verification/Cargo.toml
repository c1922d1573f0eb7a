[package]
name = "afmer-etl"
version = "0.1.0"
edition = "2021"
publish = false

[dependencies]
anyhow = "1"
calamine = "*"
clap = { version = "4", features = ["derive"] }
csv = "1"
flate2 = "1"
pdf-extract = "*"
rusqlite = { version = "*", features = ["bundled"] }
serde_json = "1"
