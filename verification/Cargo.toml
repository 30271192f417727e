[package]
name = "maze_carver"
version = "0.1.0"
edition = "2021"
publish = false

[dependencies]
rand = "0.7"
terminal_size = "*"
crossterm_input = "*"
crossterm_screen = "*"
