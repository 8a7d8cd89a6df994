[package]
name = "groundtrack"
version = "0.1.0"
edition = "2021"
publish = false

[dependencies]
anyhow = "=1.0.104"
crossterm = "=0.29.0"
hifitime = "=4.3.1"
ratatui = "=0.30.2"
sgp4 = "=2.4.0"
ureq = { version = "=3.4.2", features = ["json"] }
