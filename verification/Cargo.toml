[package]
name = "edn8"
version = "0.1.0"
edition = "2021"
publish = false

[dependencies]
anstream = "*"
anstyle = "*"
chrono = "*"
clap = "*"
indicatif = "*"
serialport = { version = "*", default-features = false }
term_grid = "*"
