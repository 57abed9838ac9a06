[package]
name = "rt"
version = "0.1.0"
edition = "2021"
publish = false

[dependencies]
unicode-width = "*"
vte = "*"
portable-pty = "*"
tokio = { version = "*", features = ["sync", "rt", "rt-multi-thread", "signal", "macros", "time"] }
nix = { version = "*", features = ["signal", "process"] }
dirs = "*"
log = "*"
