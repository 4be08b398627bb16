[package]
name = "plutus"
version = "0.1.0"
edition = "2021"
publish = false

[dependencies]
num-bigint = "0.4"
proc-macro2 = "1"
quote = "1"
quote_into = "*"
syn = { version = "2", features = ["full"] }
pyo3 = "0.20"
