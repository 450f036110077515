[package]
name = "revise"
version = "0.1.0"
edition = "2021"

[dependencies]
cli-clipboard = "0.4"
crossterm = "0.27"
thiserror = "1"
