[package]
name = "jaslog"
version = "0.1.0"
edition = "2021"
publish = false

[dependencies]
chrono = "0.4"
clap = "4"
serde_json = { version = "1", features = ["preserve_order"] }
