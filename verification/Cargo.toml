[package]
name = "starstream_core"
version = "0.1.0"
edition = "2021"
publish = false

[dependencies]
sha2 = "*"
rand = "*"
wasmi = "*"
tiny-keccak = { version = "*", features = ["keccak"] }
