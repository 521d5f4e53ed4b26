[package]
name = "midimaxe"
version = "0.1.0"
edition = "2021"
publish = false

[dependencies]
midir = "*"
crossbeam-channel = "*"
once_cell = "*"
ratatui = "*"
crossterm = "*"
tui-big-text = "*"
