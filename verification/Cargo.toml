[package]
name = "rex_fm"
version = "0.4.0"
edition = "2021"
publish = false

[dependencies]
nucleo = "0.5"
serde = { version = "1", features = ["derive"] }
serde_json = "1"
dirs = "5"
ratatui = "0.29"
crossterm = "0.28"
notify = "6"
ureq = { version = "2", features = ["json"] }
