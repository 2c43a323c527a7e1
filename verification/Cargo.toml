[package]
name = "harper_core"
version = "0.1.0"
edition = "2021"
publish = false

[dependencies]
harper-brill = "<0.46"
itertools = "0.14"
smallvec = "1"
