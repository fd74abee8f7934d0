[package]
name = "fmt2"
version = "0.1.0"
edition = "2021"
publish = false

[dependencies]
crossterm = "*"
quote = "*"
syn = { version = "*", features = ["full"] }
transmute_guard = "*"
