[package]
name = "termcast"
version = "0.1.0"
edition = "2021"
publish = false

[dependencies]
anyhow = "1"
clap = { version = "4", features = ["derive"] }
nix = { version = "0.27", features = ["fs", "term", "process", "signal", "poll", "time", "ioctl"] }
termion = "2"
