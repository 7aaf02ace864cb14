[package]
name = "ion"
version = "0.1.0"
edition = "2021"
publish = false

[dependencies]
colored = "*"
itoa = "*"
proc-macro2 = "*"
quote = "*"
syn = { version = "*", features = ["full"] }
