[package]
name = "log_analyzer"
version = "0.1.0"
edition = "2021"
publish = false

[dependencies]
regex = "1"
once_cell = "1"
