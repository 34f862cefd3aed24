[package]
name = "esr_lexer"
version = "0.1.0"
edition = "2021"
publish = false

[dependencies]
toolshed = "*"
