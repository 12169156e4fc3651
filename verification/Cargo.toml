[package]
name = "prompt_board"
version = "0.1.0"
edition = "2021"
publish = false

[dependencies]
regex = "1"
rusqlite = { version = "*", features = ["bundled"] }
dirs = "*"
thiserror = "*"
arboard = { version = "*", default-features = false }
global-hotkey = "*"
eframe = { version = "0.31", default-features = false, features = ["glow", "x11", "default_fonts"] }
