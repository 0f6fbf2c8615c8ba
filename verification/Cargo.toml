[package]
name = "portwatch"
version = "0.1.0"
edition = "2021"
publish = false

[dependencies]
netstat2 = "*"
sysinfo = "*"
nix = { version = "*", features = ["signal"] }
crossterm = "*"
ratatui = "*"
color-eyre = "*"
