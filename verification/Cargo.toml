[package]
name = "csv2lite"
version = "0.1.0"
edition = "2021"

[dependencies]
anyhow = "1"
csv = "1"
grep-cli = "0.1"
log = "0.4"
regex = "1"
rusqlite = "*"
simplelog = "*"
structopt = "0.3"
