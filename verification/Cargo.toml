[package]
name = "cli-ui"
version = "0.1.0"
edition = "2021"
publish = false

[dependencies]
anstyle = "1"
crossterm = "0.28"
