[package]
name = "daw_core"
version = "0.1.0"
edition = "2021"
publish = false

[dependencies]
basedrop = "0.1"
log = "0.4"
