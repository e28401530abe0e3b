[package]
name = "cinnabar"
version = "0.1.0"
edition = "2021"
publish = false

[dependencies]
percent-encoding = "*"
sha1 = "*"
structopt = "*"
