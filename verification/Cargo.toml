[package]
name = "cliphist_tui"
version = "0.1.0"
edition = "2021"
publish = false

[dependencies]
clap = { version = "4", features = ["derive"] }
crossterm = "0.29"
dirs = "6"
infer = "0.19"
rand = "0.9"
regex = "1"
urlencoding = "2"
xxhash-rust = { version = "0.8", features = ["xxh3"] }
