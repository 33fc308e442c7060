[package]
name = "shellaga"
version = "0.1.0"
edition = "2021"
publish = false

[dependencies]
ndarray = "*"
rand = "0.8"
crossterm = "*"
ratatui = "*"
