[package]
name = "moreutils"
version = "0.1.0"
edition = "2021"
publish = false

[dependencies]
chrono = "0.4"
lexopt = "0.3"
rand = "0.8"
regex = "1"
signal-hook = "0.3"
sysinfo = "*"
