[package]
name = "habit_tracker"
version = "0.1.0"
edition = "2021"
publish = false

[dependencies]
catppuccin = "*"
color-eyre = "*"
crossterm = "=0.28.1"
ratatui = { version = "=0.29.0", features = ["widget-calendar"] }
rusqlite = { version = "*", features = ["bundled"] }
time = { version = "*", features = ["formatting", "parsing"] }
