[package]
name = "axfr2tf"
version = "0.1.0"
edition = "2021"
publish = false

[dependencies]
trust-dns = "0.14"
clap = "2"
chrono = "0.4"
env_logger = "*"
