[package]
name = "yeehaw"
version = "0.1.0"
edition = "2021"
publish = false

[dependencies]
rand = "0.8"
crossterm = "0.28"
parking_lot = "0.12"
once_cell = "1"
serde = { version = "1", features = ["derive"] }
serde_json = "1"
nom = "8"
compact_str = "0.8"
