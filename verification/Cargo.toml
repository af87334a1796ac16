[package]
name = "artichoke_bridge"
version = "0.1.0"
edition = "2021"
publish = false

[dependencies]
itoa = "1"
clap = "4"
termcolor = "1"
toml = "0.8"
