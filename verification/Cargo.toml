[package]
name = "typstd"
version = "0.1.0"
edition = "2021"
publish = false

[dependencies]
toml = "*"
flate2 = "*"
tar = "*"
ureq = "*"
env_proxy = "*"
dirs = "*"
fontdb = "*"
