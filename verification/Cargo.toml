[package]
name = "regex_bench"
version = "0.1.0"
edition = "2021"
publish = false

[dependencies]
anyhow = "=1.0.104"
bstr = "=1.13.1"
env_logger = "=0.11.11"
lexopt = "=0.3.2"

[dev-dependencies]
regex = "=1.13.1"
