[package]
name = "tui_editor"
version = "0.1.0"
edition = "2021"
publish = false

[dependencies]
clipboard = "*"
crossterm = "*"
ratatui = "*"
regex = "*"
