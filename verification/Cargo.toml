[package]
name = "expenses"
version = "0.1.0"
edition = "2021"
publish = false

[dependencies]
sqlite = "=0.28.1"
console = "=0.16.6"
