[package]
name = "notemd"
version = "0.1.0"
edition = "2021"
publish = false

[dependencies]
anyhow = "1"
clap = { version = "3", features = ["cargo"] }
crossterm = "0.25"
fern = "0.6"
grep = "0.2"
home = "0.5"
ignore = "0.4"
log = "0.4"
tui = "0.19"
unicode-width = "0.1"
