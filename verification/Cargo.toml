[package]
name = "pallet_call"
version = "0.1.0"
edition = "2021"
publish = false

[dependencies]
syn = "1"
proc-macro2 = "1"
quote = "1"
synstructure = "0.12"
Inflector = "0.11"
