[package]
name = "folio"
version = "0.1.0"
edition = "2021"
publish = false

[dependencies]
regex = "*"
crossterm = "*"
ratatui = "*"
clipboard = "*"
