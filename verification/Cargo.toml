[package]
name = "recad_core"
version = "0.1.0"
edition = "2021"
publish = false

[dependencies]
indexmap = "2"
uuid = { version = "1", features = ["v4"] }
regex = "1"
ndarray = "0.15"
fontdue = "0.9"
log = "0.4"
