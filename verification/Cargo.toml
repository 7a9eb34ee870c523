[package]
name = "agenda"
version = "0.1.0"
edition = "2021"
publish = false

[dependencies]
chrono = "0.4"
color-eyre = "0.6"
ratatui = "0.29"
regex = "1"
rusqlite = "0.32"
