[package]
name = "oxideterm"
version = "0.1.0"
edition = "2021"
publish = false

[dependencies]
serde_json = "1"
thiserror = "2"
dirs = "6"
