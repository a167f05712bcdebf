[package]
name = "tui"
version = "0.1.0"
edition = "2021"
publish = false

[dependencies]
ringbuffer = "0.15"
jiff = "0.2"
humansize = "2"
ratatui = "0.29"
crossterm = "0.28"
anyhow = "1"
