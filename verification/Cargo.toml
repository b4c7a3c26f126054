[package]
name = "rusterm"
version = "0.1.0"
edition = "2021"

[dependencies]
colored = "2"
rustyline = "9"
