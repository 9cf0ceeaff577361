[package]
name = "windstats"
version = "0.1.0"
edition = "2021"
publish = false

[dependencies]
circular-queue = "*"
csv = "*"
tabular = "*"
