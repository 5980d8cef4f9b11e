[package]
name = "config_parser"
version = "0.1.0"
edition = "2021"
publish = false

[dependencies]
serde_json = "*"
toml_edit = "*"
clap = { version = "*", features = ["derive"] }
thiserror = "*"
