[package]
name = "htmlview"
version = "0.1.0"
edition = "2021"
publish = false

[dependencies]
html2text = "=0.17.1"
crossterm = "=0.27.0"
ratatui = "=0.26.3"
tui-input = "=0.8.0"
reqwest = { version = "=0.11.27", default-features = false, features = ["blocking"] }
