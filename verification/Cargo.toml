[package]
name = "openflow"
version = "0.1.0"
edition = "2021"
publish = false

[dependencies]
jzon = "*"
getopts = "*"
ureq = { version = "3", default-features = false }
