[package]
name = "video2ascii"
version = "0.1.0"
edition = "2021"
publish = false

[dependencies]
anyhow = "*"
chrono = "*"
crossterm = "*"
glob = "*"
ratatui = "*"
sysinfo = "*"
