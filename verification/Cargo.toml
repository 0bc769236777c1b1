[package]
name = "multicall"
version = "0.1.0"
edition = "2021"
publish = false

[dependencies]
clap = { version = "=4.6.7", features = ["string"] }
promkit = "=0.1.2"
shlex = "=1.3.0"
