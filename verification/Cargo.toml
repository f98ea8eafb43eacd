[package]
name = "step_logs"
version = "0.1.0"
edition = "2021"
publish = false

[dependencies]
anyhow = "1"
console = "0.15"
indicatif = "0.17"
