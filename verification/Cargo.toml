[package]
name = "neolisp"
version = "0.1.0"
edition = "2021"
publish = false

[dependencies]
peg = "*"
colored = "*"
rustyline = "*"
