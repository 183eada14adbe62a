[package]
name = "dtp"
version = "0.1.0"
edition = "2021"
publish = false

[dependencies]
quiche = "*"
ring = "*"
rand = "*"
log = "*"
env_logger = "*"
calloop = "*"
docopt = "*"
anyhow = "*"
