[package]
name = "dedupe"
version = "0.1.0"
edition = "2021"
publish = false

[dependencies]
anyhow = "*"
blake2 = "*"
dialoguer = "*"
indicatif = "*"
log = "*"
question = "*"
stderrlog = "*"
structopt = "*"
walkdir = "*"
