[package]
name = "pattern_search"
version = "0.1.0"
edition = "2021"
publish = false

[dependencies]
adler32 = "*"
clap = { version = "*", features = ["derive"] }
